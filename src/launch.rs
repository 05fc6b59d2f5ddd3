use vstd::prelude::*;

use crate::config::Config;
use crate::text::{concat, texts};

verus! {

/// The external process that runs the game.
#[derive(Debug, Clone)]
pub struct LaunchCommand {
    pub program: String,
    pub args: Vec<String>,
}

/// The config keys a launch cannot do without.
pub open spec fn has_launch_keys(config: Map<Seq<char>, Seq<char>>) -> bool {
    &&& config.contains_key("current_java_path"@)
    &&& config.contains_key("max_ram"@)
    &&& config.contains_key("min_ram"@)
}

/// The runtime's arguments: the heap bounds in megabytes, then the launch tokens.
pub open spec fn launch_args(config: Map<Seq<char>, Seq<char>>, args: Seq<Seq<char>>) -> Seq<
    Seq<char>,
> {
    seq!["-Xmx"@ + config["max_ram"@] + "M"@, "-Xms"@ + config["min_ram"@] + "M"@] + args
}

/// The command that runs the game with the given launch tokens: the runtime
/// at `current_java_path`, with heap bounds from `max_ram` and `min_ram`.
/// None where one of those keys is not set.
pub fn launch_command(config: &Config, args: Vec<String>) -> (r: Option<LaunchCommand>)
    ensures
        r is Some == has_launch_keys(config@),
        r matches Some(c) ==> c.program@ == config@["current_java_path"@] && texts(c.args@)
            == launch_args(config@, texts(args@)),
{
    let java = match config.get("current_java_path") {
        Some(j) => j,
        None => return None,
    };
    let max_ram = match config.get("max_ram") {
        Some(m) => m,
        None => return None,
    };
    let min_ram = match config.get("min_ram") {
        Some(m) => m,
        None => return None,
    };
    let mut out: Vec<String> = Vec::new();
    out.push(concat(concat("-Xmx", max_ram).as_str(), "M"));
    out.push(concat(concat("-Xms", min_ram).as_str(), "M"));
    let ghost heap = texts(out@);
    let mut args = args;
    let ghost arg_texts = texts(args@);
    out.append(&mut args);
    proof {
        assert(texts(out@) =~= heap + arg_texts);
        assert(heap =~= seq!["-Xmx"@ + config@["max_ram"@] + "M"@, "-Xms"@ + config@["min_ram"@] + "M"@]);
    }
    Some(LaunchCommand { program: java.to_owned(), args: out })
}

} // verus!
