//! The rendered `server.properties` text for one runner's working
//! directory: a fixed template with the runner's port (the base port plus
//! the runner index, in two places) and the task's seed filled in.

use vstd::prelude::*;

use crate::decimal::spec_decimal;
use crate::decimal::u32_to_decimal;

verus! {

/// The lowest server port; runner `i` listens on `BASE_PORT + i`.
pub const BASE_PORT: u32 = 25565;

pub const TEMPLATE_HEAD: &'static str = "#Minecraft server properties\n#Generated by SpicyGarden\nenable-jmx-monitoring=false\nrcon.port=\ngamemode=survival\nenable-command-block=false\nenable-query=false\nlevel-name=world\nmotd=SpicyGarden\nquery.port=";

pub const TEMPLATE_MID: &'static str = "\npvp=true\ndifficulty=easy\nnetwork-compression-threshold=256\nrequire-resource-pack=false\nmax-tick-time=60000\nuse-native-transport=true\nmax-players=2\nonline-mode=false\nenable-status=true\nallow-flight=true\nbroadcast-rcon-to-ops=true\nview-distance=4\nserver-ip=\nresource-pack-prompt=\nallow-nether=false\nserver-port=";

pub const TEMPLATE_TAIL: &'static str = "\nenable-rcon=false\nsync-chunk-writes=true\nop-permission-level=4\nprevent-proxy-connections=false\nhide-online-players=false\nresource-pack=\nentity-broadcast-range-percentage=100\nsimulation-distance=4\nrcon.password=\nplayer-idle-timeout=0\ndebug=false\nforce-gamemode=false\nrate-limit=0\nhardcore=false\nwhite-list=false\nbroadcast-console-to-ops=true\nspawn-npcs=false\nspawn-animals=false\nsnooper-enabled=false\nfunction-permission-level=2\ntext-filtering-config=\nspawn-monsters=false\nenforce-whitelist=false\nresource-pack-sha1=\nspawn-protection=4\nmax-world-size=8000\nlevel-seed=";

/// The full configuration text for a runner and a seed: the template with
/// the runner's port in the two port fields and the seed in the seed field,
/// ending in a newline.
pub open spec fn spec_server_properties(runner_index: u32, seed: Seq<char>) -> Seq<char> {
    let port = (BASE_PORT + runner_index) as nat;
    TEMPLATE_HEAD@ + spec_decimal(port) + TEMPLATE_MID@ + spec_decimal(port) + TEMPLATE_TAIL@
        + seed + "\n"@
}

/// Renders the `server.properties` contents for one runner's working
/// directory.
pub fn get_server_properties(runner_index: u32, seed: &String) -> (r: String)
    requires
        runner_index <= u32::MAX - BASE_PORT,
    ensures
        r@ == spec_server_properties(runner_index, seed@),
{
    let port: u32 = BASE_PORT + runner_index;
    let port_str = u32_to_decimal(port);
    let mut s = TEMPLATE_HEAD.to_owned();
    s.append(port_str.as_str());
    s.append(TEMPLATE_MID);
    s.append(port_str.as_str());
    s.append(TEMPLATE_TAIL);
    s.append(seed.as_str());
    s.append("\n");
    proof {
        assert(s@ =~= spec_server_properties(runner_index, seed@));
    }
    s
}

} // verus!
