//! The configuration of the tool and its defaults.

use vstd::prelude::*;
use vstd::string::StringExecFns;

verus! {

/// The whole configuration.
#[derive(Clone, Debug, PartialEq, Eq)]
pub struct TraeConfig {
    pub jarvix: JarvixConfig,
    pub analysis: AnalysisConfig,
    pub repair: RepairConfig,
}

/// How metrics are reported.
#[derive(Clone, Debug, PartialEq, Eq)]
pub struct JarvixConfig {
    pub enabled: bool,
    pub server_url: String,
    pub api_key: Option<String>,
    /// Time allowed for one report, in seconds.
    pub timeout: u64,
}

/// Which analyses run.
#[derive(Clone, Copy, Debug, PartialEq, Eq)]
pub struct AnalysisConfig {
    pub auto_analysis: bool,
    pub performance_analysis: bool,
    pub security_analysis: bool,
}

/// How repairs run.
#[derive(Clone, Copy, Debug, PartialEq, Eq)]
pub struct RepairConfig {
    pub auto_repair: bool,
    pub backup_before_repair: bool,
    pub clippy_auto_fix: bool,
}

impl Default for TraeConfig {
    /// Reporting to a local server within thirty seconds and without a key;
    /// automatic analysis only; repairs on request, with a backup and with
    /// automatic clippy fixes.
    fn default() -> (r: Self)
        ensures
            r.jarvix.enabled,
            r.jarvix.server_url@ == "http://localhost:8080"@,
            r.jarvix.api_key is None,
            r.jarvix.timeout == 30,
            r.analysis == (AnalysisConfig {
                auto_analysis: true,
                performance_analysis: false,
                security_analysis: false,
            }),
            r.repair == (RepairConfig {
                auto_repair: false,
                backup_before_repair: true,
                clippy_auto_fix: true,
            }),
    {
        TraeConfig {
            jarvix: JarvixConfig {
                enabled: true,
                server_url: String::from_str("http://localhost:8080"),
                api_key: None,
                timeout: 30,
            },
            analysis: AnalysisConfig {
                auto_analysis: true,
                performance_analysis: false,
                security_analysis: false,
            },
            repair: RepairConfig {
                auto_repair: false,
                backup_before_repair: true,
                clippy_auto_fix: true,
            },
        }
    }
}

} // verus!
