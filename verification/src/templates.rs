//! The files a fresh project is seeded with, and the bundled editor plugin:
//! fixed text templates, the two with the project's name spliced in, and the
//! plugin serialized into the editor's binary model format.

use vstd::prelude::*;
use vstd::string::{StrSliceExecFns, StringExecFns, StringSliceAdditionalSpecFns};
use vstd::utf8::encode_utf8;

verus! {

/// The context text format version; a project whose context file carries an
/// older version is regenerated.
pub const CONTEXT_VERSION: &'static str = "0.7.0";

/// The bundled editor plugin's version; bumped to force reinstallation.
pub const DEBUG_PLUGIN_VERSION: &'static str = "1.0.1";

/// The marker that opens the preserved user-notes section of a context file.
pub const USER_NOTES_MARKER: &'static str = "## Your Notes";

pub const PROJECT_JSON_HEAD: &'static str = r#"{
  "name": ""#;

pub const PROJECT_JSON_TAIL: &'static str = r#"",
  "globIgnorePaths": ["**/*.rbxjson"],
  "tree": {
    "$className": "DataModel",
    "ServerScriptService": {
      "$className": "ServerScriptService",
      "$ignoreUnknownInstances": true,
      "$path": "scripts/ServerScriptService"
    },
    "StarterPlayer": {
      "$className": "StarterPlayer",
      "$ignoreUnknownInstances": true,
      "StarterPlayerScripts": {
        "$className": "StarterPlayerScripts",
        "$ignoreUnknownInstances": true,
        "$path": "scripts/StarterPlayer/StarterPlayerScripts"
      },
      "StarterCharacterScripts": {
        "$className": "StarterCharacterScripts",
        "$ignoreUnknownInstances": true,
        "$path": "scripts/StarterPlayer/StarterCharacterScripts"
      }
    },
    "ReplicatedStorage": {
      "$className": "ReplicatedStorage",
      "$ignoreUnknownInstances": true,
      "$path": "scripts/ReplicatedStorage"
    },
    "ReplicatedFirst": {
      "$className": "ReplicatedFirst",
      "$ignoreUnknownInstances": true,
      "$path": "scripts/ReplicatedFirst"
    },
    "ServerStorage": {
      "$className": "ServerStorage",
      "$ignoreUnknownInstances": true,
      "$path": "scripts/ServerStorage"
    },
    "Workspace": {
      "$className": "Workspace",
      "$ignoreUnknownInstances": true,
      "$path": "scripts/Workspace"
    },
    "StarterGui": {
      "$className": "StarterGui",
      "$ignoreUnknownInstances": true,
      "$path": "scripts/StarterGui"
    },
    "StarterPack": {
      "$className": "StarterPack",
      "$ignoreUnknownInstances": true,
      "$path": "scripts/StarterPack"
    }
  }
}
"#;

/// The project configuration for the script-sync tool, named after the
/// project.
pub fn project_json(project_name: &str) -> (r: String)
    ensures
        r@ == PROJECT_JSON_HEAD@ + project_name@ + PROJECT_JSON_TAIL@,
{
    let mut r = PROJECT_JSON_HEAD.to_owned();
    r.append(project_name);
    r.append(PROJECT_JSON_TAIL);
    r
}

pub const LUAURC_TEXT: &'static str = r#"{
  "languageMode": "strict"
}
"#;

/// The strict-mode language configuration.
pub fn luaurc() -> (r: &'static str)
    ensures
        r@ == LUAURC_TEXT@,
{
    LUAURC_TEXT
}

pub const SERVER_SCRIPT_TEXT: &'static str = r#"--!strict
-- Server entry point. Code here runs on the Roblox server.

local Players = game:GetService("Players")

Players.PlayerAdded:Connect(function(player: Player)
	print(`{player.Name} joined the game`)
end)

Players.PlayerRemoving:Connect(function(player: Player)
	print(`{player.Name} left the game`)
end)
"#;

/// A minimal server-side starter script.
pub fn server_script() -> (r: &'static str)
    ensures
        r@ == SERVER_SCRIPT_TEXT@,
{
    SERVER_SCRIPT_TEXT
}

pub const CLIENT_SCRIPT_TEXT: &'static str = r#"--!strict
-- Client entry point. Code here runs on each player's device.

local Players = game:GetService("Players")

local player = Players.LocalPlayer
print(`Client started for {player.Name}`)
"#;

/// A minimal client-side starter script.
pub fn client_script() -> (r: &'static str)
    ensures
        r@ == CLIENT_SCRIPT_TEXT@,
{
    CLIENT_SCRIPT_TEXT
}

pub const SHARED_MODULE_TEXT: &'static str = r#"--!strict
-- Shared module. Accessible from both server and client via ReplicatedStorage.

local Shared = {}

return Shared
"#;

/// A minimal shared module.
pub fn shared_module() -> (r: &'static str)
    ensures
        r@ == SHARED_MODULE_TEXT@,
{
    SHARED_MODULE_TEXT
}

pub const DEBUG_MODULE_TEXT: &'static str = r#"--!strict
-- Debug logging module. Use Debug.print() instead of print() so logs
-- are visible in Studio but stripped in production.

local RunService = game:GetService("RunService")

local IS_STUDIO = RunService:IsStudio()

local Debug = {}

function Debug.print(...: any)
	if IS_STUDIO then
		print(...)
	end
end

function Debug.warn(...: any)
	if IS_STUDIO then
		warn(...)
	end
end

return Debug
"#;

/// The debug logging module seeded into every project: prints only inside
/// the editor, silent in production.
pub fn debug_module() -> (r: &'static str)
    ensures
        r@ == DEBUG_MODULE_TEXT@,
{
    DEBUG_MODULE_TEXT
}

pub const RBXSYNC_JSON_HEAD: &'static str = r#"{
  "name": ""#;

pub const RBXSYNC_JSON_TAIL: &'static str = r#"",
  "tree": "./src",
  "config": {
    "excludeServices": [
      "CoreGui",
      "CorePackages"
    ],
    "scriptSourceMode": "external"
  }
}
"#;

/// The configuration for the instance-sync tool, named after the project.
pub fn rbxsync_json(project_name: &str) -> (r: String)
    ensures
        r@ == RBXSYNC_JSON_HEAD@ + project_name@ + RBXSYNC_JSON_TAIL@,
{
    let mut r = RBXSYNC_JSON_HEAD.to_owned();
    r.append(project_name);
    r.append(RBXSYNC_JSON_TAIL);
    r
}

pub const DEBUG_PLUGIN_HEAD: &'static str = r#"--!strict
-- RoxlitDebug v"#;

pub const DEBUG_PLUGIN_TAIL: &'static str = r#" — Studio Output capture for AI debugging
-- Sends LogService output to the Roxlit launcher log server.
-- If the launcher is not running, the plugin silently does nothing.

local HttpService = game:GetService("HttpService")
local LogService = game:GetService("LogService")

local SERVER_URL = "http://127.0.0.1:19556"
local BATCH_INTERVAL = 0.5
local BATCH_MAX = 50
local HEALTH_INTERVAL = 10

local buffer: {[string]: any} = {}
local serverAlive = false
local lastHealthCheck = 0

local function checkHealth()
	local ok, _ = pcall(function()
		HttpService:GetAsync(SERVER_URL .. "/health")
	end)
	serverAlive = ok
	lastHealthCheck = os.clock()
end

local function flushBuffer()
	if #buffer == 0 or not serverAlive then
		return
	end

	local batch = buffer
	buffer = {}

	pcall(function()
		local json = HttpService:JSONEncode(batch)
		HttpService:PostAsync(SERVER_URL .. "/log", json, Enum.HttpContentType.ApplicationJson)
	end)
end

local function levelFromType(messageType: Enum.MessageType): string
	if messageType == Enum.MessageType.MessageError then
		return "error"
	elseif messageType == Enum.MessageType.MessageWarning then
		return "warn"
	end
	return "info"
end

LogService.MessageOut:Connect(function(message: string, messageType: Enum.MessageType)
	if not serverAlive then
		return
	end

	table.insert(buffer, {
		message = message,
		level = levelFromType(messageType),
		timestamp = os.clock(),
	})

	if #buffer >= BATCH_MAX then
		flushBuffer()
	end
end)

-- Initial health check
checkHealth()

-- Periodic flush + health check
task.spawn(function()
	while true do
		task.wait(BATCH_INTERVAL)

		if os.clock() - lastHealthCheck >= HEALTH_INTERVAL then
			checkHealth()
		end

		flushBuffer()
	end
end)
"#;

/// The source of the output-capturing editor plugin, stamped with its
/// version.
pub fn debug_plugin_luau() -> (r: String)
    ensures
        r@ == DEBUG_PLUGIN_HEAD@ + DEBUG_PLUGIN_VERSION@ + DEBUG_PLUGIN_TAIL@,
{
    let mut r = DEBUG_PLUGIN_HEAD.to_owned();
    r.append(DEBUG_PLUGIN_VERSION);
    r.append(DEBUG_PLUGIN_TAIL);
    r
}

/// Four bytes of `n`, least significant first.
pub open spec fn le4(n: int) -> Seq<u8> {
    seq![
        (n % 256) as u8,
        ((n / 256) % 256) as u8,
        ((n / 65536) % 256) as u8,
        ((n / 16777216) % 256) as u8,
    ]
}

/// Append the four little-endian bytes of `n`.
fn push_le4(buf: &mut Vec<u8>, n: u32)
    ensures
        final(buf)@ == old(buf)@ + le4(n as int),
{
    let ghost before = buf@;
    buf.push((n % 256) as u8);
    buf.push(((n / 256) % 256) as u8);
    buf.push(((n / 65536) % 256) as u8);
    buf.push(((n / 16777216) % 256) as u8);
    proof {
        assert(buf@ =~= before + le4(n as int));
    }
}

/// A length-prefixed string as the binary model format stores it: four
/// little-endian length bytes, then the text's bytes.
pub open spec fn spec_rbxm_string(s: Seq<u8>) -> Seq<u8> {
    le4((s.len() as usize) as int % 0x100000000) + s
}

/// Append a length-prefixed UTF-8 string.
pub fn rbxm_string(buf: &mut Vec<u8>, s: &str)
    ensures
        final(buf)@ == old(buf)@ + spec_rbxm_string(s.spec_bytes()),
{
    let ghost before = buf@;
    let len = s.len();
    let len32 = #[verifier::truncate] (len as u32);
    proof {
        assert(len32 as int == len as int % 0x100000000) by (bit_vector)
            requires
                len32 == len as u32,
        ;
    }
    push_le4(buf, len32);
    let bytes = s.as_bytes();
    buf.extend_from_slice(bytes);
    proof {
        assert(buf@ =~= before + spec_rbxm_string(s.spec_bytes()));
    }
}

/// An uncompressed chunk: the four name bytes, a zero compressed length, the
/// payload length, four reserved bytes, and the payload.
pub open spec fn spec_rbxm_chunk(name: Seq<u8>, data: Seq<u8>) -> Seq<u8> {
    name + le4(0) + le4(data.len() as int % 0x100000000) + seq![0u8, 0u8, 0u8, 0u8] + data
}

/// Append an uncompressed chunk under the four-byte name `name`.
pub fn rbxm_chunk(buf: &mut Vec<u8>, name: &str, data: &Vec<u8>)
    ensures
        final(buf)@ == old(buf)@ + spec_rbxm_chunk(name.spec_bytes(), data@),
{
    let ghost before = buf@;
    buf.extend_from_slice(name.as_bytes());
    push_le4(buf, 0);
    let len = data.len();
    let len32 = #[verifier::truncate] (len as u32);
    proof {
        assert(len32 as int == len as int % 0x100000000) by (bit_vector)
            requires
                len32 == len as u32,
        ;
    }
    push_le4(buf, len32);
    buf.push(0);
    buf.push(0);
    buf.push(0);
    buf.push(0);
    buf.extend_from_slice(data.as_slice());
    proof {
        assert(buf@ =~= before + spec_rbxm_chunk(name.spec_bytes(), data@));
    }
}

/// The fixed file header: magic, signature, version 0, one class, one
/// instance, eight reserved bytes.
pub open spec fn spec_rbxm_header() -> Seq<u8> {
    ("<roblox!").spec_bytes() + seq![0x89u8, 0xFFu8, 0x0Du8, 0x0Au8, 0x1Au8, 0x0Au8] + seq![
        0u8,
        0u8,
    ] + le4(1) + le4(1) + seq![0u8, 0u8, 0u8, 0u8, 0u8, 0u8, 0u8, 0u8]
}

/// The payload of the class-declaration chunk: class 0 named `Script`, plain
/// format, one instance, referent 0.
pub open spec fn spec_inst_data() -> Seq<u8> {
    le4(0) + spec_rbxm_string(("Script").spec_bytes()) + seq![0u8] + le4(1) + seq![
        0u8,
        0u8,
        0u8,
        0u8,
    ]
}

/// The payload of a string property chunk for class 0.
pub open spec fn spec_prop_data(prop: Seq<u8>, value: Seq<u8>) -> Seq<u8> {
    le4(0) + spec_rbxm_string(prop) + seq![1u8] + spec_rbxm_string(value)
}

/// The payload of the parent chunk: version 0, one link, child referent 0,
/// no parent.
pub open spec fn spec_prnt_data() -> Seq<u8> {
    seq![0u8] + le4(1) + seq![0u8, 0u8, 0u8, 0u8] + seq![0u8, 0u8, 0u8, 1u8]
}

/// The whole plugin file: the header, the class chunk, the `Name` and
/// `Source` properties, the parent chunk, and the end chunk.
pub open spec fn spec_plugin_rbxm(name: Seq<u8>, source: Seq<u8>) -> Seq<u8> {
    spec_rbxm_header() + spec_rbxm_chunk(("INST").spec_bytes(), spec_inst_data())
        + spec_rbxm_chunk(("PROP").spec_bytes(), spec_prop_data(("Name").spec_bytes(), name))
        + spec_rbxm_chunk(("PROP").spec_bytes(), spec_prop_data(("Source").spec_bytes(), source))
        + spec_rbxm_chunk(("PRNT").spec_bytes(), spec_prnt_data()) + spec_rbxm_chunk(
        ("END\0").spec_bytes(),
        ("</roblox>").spec_bytes(),
    )
}

/// The output-capturing editor plugin as a binary model file: one `Script`
/// instance named for the plugin, holding the plugin source.
pub fn debug_plugin_rbxm() -> (r: Vec<u8>)
    ensures
        r@ == spec_plugin_rbxm(
            ("RoxlitDebug").spec_bytes(),
            encode_utf8(
                DEBUG_PLUGIN_HEAD@ + DEBUG_PLUGIN_VERSION@ + DEBUG_PLUGIN_TAIL@,
            ),
        ),
{
    let source = debug_plugin_luau();
    let name = "RoxlitDebug";

    let mut buf: Vec<u8> = Vec::new();
    let ghost start = buf@;
    buf.extend_from_slice("<roblox!".as_bytes());
    buf.push(0x89);
    buf.push(0xFF);
    buf.push(0x0D);
    buf.push(0x0A);
    buf.push(0x1A);
    buf.push(0x0A);
    buf.push(0);
    buf.push(0);
    push_le4(&mut buf, 1);
    push_le4(&mut buf, 1);
    let mut z: usize = 0;
    while z < 8
        invariant
            0 <= z <= 8,
            buf@ =~= start + ("<roblox!").spec_bytes() + seq![
                0x89u8,
                0xFFu8,
                0x0Du8,
                0x0Au8,
                0x1Au8,
                0x0Au8,
            ] + seq![0u8, 0u8] + le4(1) + le4(1) + Seq::new(z as nat, |i: int| 0u8),
        decreases 8 - z,
    {
        buf.push(0);
        proof {
            assert(Seq::new((z + 1) as nat, |i: int| 0u8) =~= Seq::new(z as nat, |i: int| 0u8)
                + seq![0u8]);
        }
        z = z + 1;
    }
    proof {
        assert(Seq::new(8, |i: int| 0u8) =~= seq![0u8, 0u8, 0u8, 0u8, 0u8, 0u8, 0u8, 0u8]);
        assert(buf@ =~= spec_rbxm_header());
    }

    // class declaration
    let mut d: Vec<u8> = Vec::new();
    push_le4(&mut d, 0);
    rbxm_string(&mut d, "Script");
    d.push(0);
    push_le4(&mut d, 1);
    d.push(0);
    d.push(0);
    d.push(0);
    d.push(0);
    proof {
        assert(d@ =~= spec_inst_data());
    }
    rbxm_chunk(&mut buf, "INST", &d);

    // Name property
    let mut d2: Vec<u8> = Vec::new();
    push_le4(&mut d2, 0);
    rbxm_string(&mut d2, "Name");
    d2.push(1);
    rbxm_string(&mut d2, name);
    proof {
        assert(d2@ =~= spec_prop_data(("Name").spec_bytes(), ("RoxlitDebug").spec_bytes()));
    }
    rbxm_chunk(&mut buf, "PROP", &d2);

    // Source property
    let mut d3: Vec<u8> = Vec::new();
    push_le4(&mut d3, 0);
    rbxm_string(&mut d3, "Source");
    d3.push(1);
    let source_text = source.as_str();
    rbxm_string(&mut d3, source_text);
    proof {
        assert(source_text.spec_bytes() == encode_utf8(
            DEBUG_PLUGIN_HEAD@ + DEBUG_PLUGIN_VERSION@ + DEBUG_PLUGIN_TAIL@,
        ));
        assert(d3@ =~= spec_prop_data(("Source").spec_bytes(), source_text.spec_bytes()));
    }
    rbxm_chunk(&mut buf, "PROP", &d3);

    // parent links
    let mut d4: Vec<u8> = Vec::new();
    d4.push(0);
    push_le4(&mut d4, 1);
    d4.push(0);
    d4.push(0);
    d4.push(0);
    d4.push(0);
    d4.push(0);
    d4.push(0);
    d4.push(0);
    d4.push(1);
    proof {
        assert(d4@ =~= spec_prnt_data());
    }
    rbxm_chunk(&mut buf, "PRNT", &d4);

    // end chunk
    let mut d5: Vec<u8> = Vec::new();
    d5.extend_from_slice("</roblox>".as_bytes());
    proof {
        assert(d5@ =~= ("</roblox>").spec_bytes());
    }
    rbxm_chunk(&mut buf, "END\0", &d5);

    proof {
        assert(buf@ =~= spec_plugin_rbxm(
            ("RoxlitDebug").spec_bytes(),
            encode_utf8(DEBUG_PLUGIN_HEAD@ + DEBUG_PLUGIN_VERSION@ + DEBUG_PLUGIN_TAIL@),
        ));
    }
    buf
}

} // verus!
