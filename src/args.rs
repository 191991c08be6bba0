//! The settings that a discovery or launch run is given.
use vstd::prelude::*;

verus! {

pub const DEFAULT_MESH_X: u16 = 8;

pub const DEFAULT_MESH_Y: u16 = 8;

pub const DEFAULT_CORES_PER_DSU: u8 = 2;

pub const DEFAULT_NODEID_LENGTH: u8 = 9;

/// How the platform groups its cores into NUMA nodes: the whole chip as one
/// node, two halves, or four quarters.
#[derive(Clone, Copy, Debug, PartialEq, Eq)]
pub enum NUMAConfig {
    Monolithic,
    Hemisphere,
    Quadrant,
}

impl Default for NUMAConfig {
    fn default() -> (r: NUMAConfig)
        ensures
            r == NUMAConfig::Monolithic,
    {
        NUMAConfig::Monolithic
    }
}

/// Settings of a topology discovery run.
#[derive(Debug)]
pub struct DetermineTopologyArgs {
    pub numa_config: NUMAConfig,
    /// The coherency benchmark's executable.
    pub benchmark_binary_path: String,
    /// Arguments to hand the benchmark before the cores it runs on.
    pub benchmark_binary_args: Option<Vec<String>>,
}

/// Settings of a run that launches one application under observation.
#[derive(Debug)]
pub struct LaunchArgs {
    /// The cores the application may run on, as a CPU list.
    pub core_map: Option<String>,
    /// A shell to run the application through.
    pub shell: Option<String>,
    /// Environment entries, each `NAME=value`.
    pub env: Option<Vec<String>>,
    /// The directory to run the application in.
    pub pwd: Option<String>,
    pub binary: String,
    pub args: Option<Vec<String>>,
}

/// Settings of a run that launches several applications, read from a
/// configuration file.
#[derive(Debug)]
pub struct LaunchMultiArgs {
    pub config: String,
}

/// What a run does.
#[derive(Debug)]
pub enum Commands {
    DetermineTopology(DetermineTopologyArgs),
    Launch(LaunchArgs),
    LaunchMulti(LaunchMultiArgs),
}

impl Commands {
    /// The name under which the results of a run of this kind are filed.
    pub fn prefix(&self) -> (r: &'static str)
        ensures
            r@ == match self {
                Commands::DetermineTopology(_) => "determine_topology"@,
                Commands::Launch(_) => "launch"@,
                Commands::LaunchMulti(_) => "launch_multi"@,
            },
    {
        match self {
            Commands::DetermineTopology(_) => "determine_topology",
            Commands::Launch(_) => "launch",
            Commands::LaunchMulti(_) => "launch_multi",
        }
    }
}

/// Settings common to every run.
#[derive(Debug)]
pub struct Cli {
    pub nodeid_length: u8,
    pub mesh_x: u16,
    pub mesh_y: u16,
    pub cores_per_dsu: u8,
    /// Event selectors to record while an application runs.
    pub events: Option<Vec<String>>,
    /// Where results are filed; empty for nowhere.
    pub outdir: String,
    pub command: Commands,
}

/// Settings of the coherency benchmark.
#[derive(Debug)]
pub struct CliArgs {
    /// Round trips per sample.
    pub num_iterations: u32,
    pub num_samples: u32,
    /// The two cores to run on.
    pub cores: Vec<usize>,
}

} // verus!
