//! The event vocabulary of the sync coordinator and its companion processes,
//! and small installer decisions.

use vstd::prelude::*;
use vstd::string::StringExecFns;
use crate::paths::str_eq;

verus! {

/// A notification from the sync coordinator to the shell: fire-and-forget,
/// never persisted.
#[derive(Clone, Debug)]
pub enum SyncEvent {
    FileChanged { path: String },
    SyncStarted,
    SyncCompleted { files_synced: u32 },
    ExtractStarted,
    ExtractCompleted { backup_path: String },
    Conflict { path: String, backup_path: String },
    Error { message: String },
}

/// A notification from the script-sync server process.
#[derive(Clone, Debug)]
pub enum RojoEvent {
    Output { line: String, stream: String },
    Started { port: u16 },
    Stopped { code: Option<i32> },
    Error { message: String },
}

/// A notification from the instance-sync server process.
#[derive(Clone, Debug)]
pub enum RbxSyncEvent {
    Output { line: String, stream: String },
    Started,
    Stopped { code: Option<i32> },
    Error { message: String },
}

/// A newer release offered to the user.
#[derive(Clone, Debug)]
pub struct UpdateInfo {
    pub version: String,
    pub published_at: String,
    pub html_url: String,
    pub body: String,
}

/// What a scan of the machine found of the required tools.
#[derive(Clone, Debug)]
pub struct DetectionResult {
    pub os: String,
    pub studio_installed: bool,
    pub studio_plugins_path: Option<String>,
    pub rojo_installed: bool,
    pub rojo_version: Option<String>,
    pub aftman_installed: bool,
    pub aftman_version: Option<String>,
    pub rbxsync_installed: bool,
    pub rbxsync_version: Option<String>,
}

/// What the user asked the installer to do.
#[derive(Clone, Debug)]
pub struct InstallConfig {
    pub ai_tool: String,
    pub project_path: String,
    pub project_name: String,
    pub skip_aftman: bool,
    pub skip_rojo: bool,
    pub skip_rbxsync: bool,
    pub plugins_path: Option<String>,
}

/// The number of installation steps: the plugin, project and context steps
/// always run; the toolchain, script-sync and instance-sync steps only when
/// not skipped.
pub open spec fn spec_total_steps(c: &InstallConfig) -> int {
    3 + (if c.skip_aftman {
        0int
    } else {
        1int
    }) + (if c.skip_rojo {
        0int
    } else {
        1int
    }) + (if c.skip_rbxsync {
        0int
    } else {
        1int
    })
}

/// How many installation steps the given configuration runs.
pub fn calculate_total_steps(config: &InstallConfig) -> (steps: usize)
    ensures
        steps == spec_total_steps(config),
{
    let mut steps: usize = 3;
    if !config.skip_aftman {
        steps = steps + 1;
    }
    if !config.skip_rojo {
        steps = steps + 1;
    }
    if !config.skip_rbxsync {
        steps = steps + 1;
    }
    steps
}

/// The released CLI binary for a platform, by OS and architecture name; the
/// platforms without a release get `None`.
pub fn rbxsync_asset_name(os: &str, arch: &str) -> (r: Option<&'static str>)
    ensures
        match r {
            Some(name) => (os@ == "windows"@ && arch@ == "x86_64"@ && name@
                == "rbxsync-windows-x86_64.exe"@) || (os@ == "macos"@ && arch@ == "aarch64"@
                && name@ == "rbxsync-macos-aarch64"@) || (os@ == "macos"@ && arch@ == "x86_64"@
                && name@ == "rbxsync-macos-x86_64"@),
            None => !(os@ == "windows"@ && arch@ == "x86_64"@) && !(os@ == "macos"@ && (arch@
                == "aarch64"@ || arch@ == "x86_64"@)),
        },
{
    if str_eq(os, "windows") && str_eq(arch, "x86_64") {
        Some("rbxsync-windows-x86_64.exe")
    } else if str_eq(os, "macos") && str_eq(arch, "aarch64") {
        Some("rbxsync-macos-aarch64")
    } else if str_eq(os, "macos") && str_eq(arch, "x86_64") {
        Some("rbxsync-macos-x86_64")
    } else {
        None
    }
}

pub const MCP_URL_MACOS: &'static str =
    "https://github.com/Smokestack-Games/rbxsync/releases/download/v1.3.0/rbxsync-mcp-macos-arm64";

pub const MCP_URL_WINDOWS: &'static str =
    "https://github.com/Roxlit/installer/releases/latest/download/rbxsync-mcp.exe";

/// The download address of the helper server binary for a platform: released
/// upstream for macOS ARM, from the launcher's own releases for Windows x64,
/// nowhere else.
pub fn rbxsync_mcp_download_url(os: &str, arch: &str) -> (r: Option<String>)
    ensures
        match r {
            Some(url) => (os@ == "macos"@ && arch@ == "aarch64"@ && url@ == MCP_URL_MACOS@) || (os@
                == "windows"@ && arch@ == "x86_64"@ && url@ == MCP_URL_WINDOWS@),
            None => !(os@ == "macos"@ && arch@ == "aarch64"@) && !(os@ == "windows"@ && arch@
                == "x86_64"@),
        },
{
    if str_eq(os, "macos") && str_eq(arch, "aarch64") {
        Some(MCP_URL_MACOS.to_owned())
    } else if str_eq(os, "windows") && str_eq(arch, "x86_64") {
        Some(MCP_URL_WINDOWS.to_owned())
    } else {
        None
    }
}

} // verus!
