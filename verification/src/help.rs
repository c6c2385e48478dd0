//! The branding pass over a command tree: what a CLI's commands and arguments
//! show in their help, held as plain text, and its rewriting for a brand.
use vstd::prelude::*;
use crate::brand::{Brand, DEFAULT_BINARY_NAME};
use crate::rebrand::{rebrand_str, rebranded};
use crate::text::text_equal;

verus! {

/// The help texts of one argument of a command.
pub struct ArgHelp {
    /// The argument's id.
    pub id: String,
    /// Its short help.
    pub help: Option<String>,
    /// Its long help.
    pub long_help: Option<String>,
    /// Its default value, where it has one.
    pub default_value: Option<String>,
}

/// The names and help texts of a command and, recursively, of its
/// subcommands.
pub struct CommandHelp {
    /// The command's name.
    pub name: String,
    /// The name shown for the binary in usage lines, where one is set.
    pub bin_name: Option<String>,
    /// Its short description.
    pub about: Option<String>,
    /// Its long description.
    pub long_about: Option<String>,
    /// Its arguments.
    pub args: Vec<ArgHelp>,
    /// Its subcommands.
    pub subcommands: Vec<CommandHelp>,
}

/// The text of an optional string.
pub open spec fn opt_text(t: Option<String>) -> Option<Seq<char>> {
    match t {
        Some(x) => Some(x@),
        None => None,
    }
}

/// An optional text, rebranded where present.
pub open spec fn opt_rebranded(t: Option<String>, b: Brand) -> Option<Seq<char>> {
    match t {
        Some(x) => Some(rebranded(x@, b)),
        None => None,
    }
}

/// The name that a command takes under a brand: the root command, named
/// after the default binary, is named after the brand's binary.
pub open spec fn branded_name(name: Seq<char>, b: Brand) -> Seq<char> {
    if name == DEFAULT_BINARY_NAME@ {
        b.binary_name@
    } else {
        name
    }
}

/// `new` is `old` with its help texts rebranded; with `completion` set, an
/// argument with id `bin_name` defaults to the brand's binary name.
pub open spec fn arg_rewritten(old: ArgHelp, new: ArgHelp, b: Brand, completion: bool) -> bool {
    &&& new.id@ == old.id@
    &&& opt_text(new.help) == opt_rebranded(old.help, b)
    &&& opt_text(new.long_help) == opt_rebranded(old.long_help, b)
    &&& opt_text(new.default_value) == if completion && old.id@ == "bin_name"@ {
        Some(b.binary_name@)
    } else {
        opt_text(old.default_value)
    }
}

/// `new` is the command tree `old` rebranded: the root command named after
/// the default binary takes the brand's binary name (and usage name), every
/// description and argument help is rebranded, the `bin_name` argument of a
/// `completion` command defaults to the brand's binary, and every subcommand
/// is rewritten the same way, in place.
pub open spec fn command_rewritten(old: CommandHelp, new: CommandHelp, b: Brand) -> bool
    decreases old,
{
    let name = branded_name(old.name@, b);
    &&& new.name@ == name
    &&& opt_text(new.bin_name) == if old.name@ == DEFAULT_BINARY_NAME@ {
        Some(b.binary_name@)
    } else {
        opt_text(old.bin_name)
    }
    &&& opt_text(new.about) == opt_rebranded(old.about, b)
    &&& opt_text(new.long_about) == opt_rebranded(old.long_about, b)
    &&& new.args@.len() == old.args@.len()
    &&& forall|i: int|
        0 <= i < old.args@.len() ==> arg_rewritten(
            #[trigger] old.args@[i],
            new.args@[i],
            b,
            name == "completion"@,
        )
    &&& new.subcommands@.len() == old.subcommands@.len()
    &&& forall|i: int|
        0 <= i < old.subcommands@.len() ==> command_rewritten(
            #[trigger] old.subcommands@[i],
            new.subcommands@[i],
            b,
        )
}

/// Every command that is named `completion` once rebranded has an argument
/// with id `bin_name`, whose default the branding pass sets.
pub open spec fn completion_ready(cmd: CommandHelp, b: Brand) -> bool
    decreases cmd,
{
    &&& branded_name(cmd.name@, b) == "completion"@ ==> exists|i: int|
        0 <= i < cmd.args@.len() && (#[trigger] cmd.args@[i]).id@ == "bin_name"@
    &&& forall|i: int|
        0 <= i < cmd.subcommands@.len() ==> completion_ready(#[trigger] cmd.subcommands@[i], b)
}

fn rebrand_opt(t: Option<String>, b: &Brand) -> (r: Option<String>)
    ensures
        opt_text(r) == opt_rebranded(t, *b),
{
    match t {
        Some(x) => Some(rebrand_str(x.as_str(), b)),
        None => None,
    }
}

/// Rebrands an argument's help and long help.
pub fn rewrite_arg(arg: ArgHelp, b: &Brand) -> (r: ArgHelp)
    ensures
        arg_rewritten(arg, r, *b, false),
{
    ArgHelp {
        id: arg.id,
        help: rebrand_opt(arg.help, b),
        long_help: rebrand_opt(arg.long_help, b),
        default_value: arg.default_value,
    }
}

/// Rewrites a command tree for a brand (see `command_rewritten`).
pub fn rewrite_command(cmd: CommandHelp, b: &Brand) -> (r: CommandHelp)
    requires
        completion_ready(cmd, *b),
    ensures
        command_rewritten(cmd, r, *b),
    decreases cmd,
{
    let ghost old_cmd = cmd;
    let CommandHelp { name, bin_name, about, long_about, args, subcommands } = cmd;
    let is_root = text_equal(name.as_str(), DEFAULT_BINARY_NAME);
    let (name, bin_name) = if is_root {
        (b.binary_name.to_owned(), Some(b.binary_name.to_owned()))
    } else {
        (name, bin_name)
    };
    let about = rebrand_opt(about, b);
    let long_about = rebrand_opt(long_about, b);
    let completion = text_equal(name.as_str(), "completion");

    let mut old_args = args;
    let mut new_args: Vec<ArgHelp> = Vec::new();
    while old_args.len() > 0
        invariant
            new_args@.len() + old_args@.len() == old_cmd.args@.len(),
            old_args@ == old_cmd.args@.skip(new_args@.len() as int),
            completion == (name@ == "completion"@),
            forall|i: int|
                0 <= i < new_args@.len() ==> arg_rewritten(
                    #[trigger] old_cmd.args@[i],
                    new_args@[i],
                    *b,
                    completion,
                ),
        decreases old_args@.len(),
    {
        let arg = old_args.remove(0);
        let mut arg = rewrite_arg(arg, b);
        if completion && text_equal(arg.id.as_str(), "bin_name") {
            arg.default_value = Some(b.binary_name.to_owned());
        }
        new_args.push(arg);
        assert(old_args@ =~= old_cmd.args@.skip(new_args@.len() as int));
    }

    let mut old_subs = subcommands;
    let mut new_subs: Vec<CommandHelp> = Vec::new();
    while old_subs.len() > 0
        invariant
            new_subs@.len() + old_subs@.len() == old_cmd.subcommands@.len(),
            old_subs@ == old_cmd.subcommands@.skip(new_subs@.len() as int),
            completion_ready(old_cmd, *b),
            old_cmd == cmd,
            forall|i: int|
                0 <= i < new_subs@.len() ==> command_rewritten(
                    #[trigger] old_cmd.subcommands@[i],
                    new_subs@[i],
                    *b,
                ),
        decreases old_subs@.len(),
    {
        let sub = old_subs.remove(0);
        assert(decreases_to!(old_cmd => sub));
        let sub = rewrite_command(sub, b);
        new_subs.push(sub);
        assert(old_subs@ =~= old_cmd.subcommands@.skip(new_subs@.len() as int));
    }

    CommandHelp { name, bin_name, about, long_about, args: new_args, subcommands: new_subs }
}

/// The branding pass with a given brand: a default brand leaves the tree
/// as it is, byte for byte; any other rewrites it.
pub fn apply_brand(cmd: CommandHelp, b: &Brand) -> (r: CommandHelp)
    requires
        !b.is_default_brand() ==> completion_ready(cmd, *b),
    ensures
        b.is_default_brand() ==> r == cmd,
        !b.is_default_brand() ==> command_rewritten(cmd, r, *b),
{
    if b.is_default() {
        return cmd;
    }
    rewrite_command(cmd, b)
}

/// What a rewritten tree keeps and changes: descriptions are rebranded
/// (absent ones stay absent), every argument keeps its id and has its help
/// texts rebranded, and every subcommand keeps its place, is renamed only if
/// it carried the default binary name, and is itself rewritten.
pub proof fn rewritten_tree_shape(old: CommandHelp, new: CommandHelp, b: Brand)
    requires
        command_rewritten(old, new, b),
    ensures
        opt_text(new.about) == opt_rebranded(old.about, b),
        opt_text(new.long_about) == opt_rebranded(old.long_about, b),
        new.args@.len() == old.args@.len(),
        forall|i: int|
            0 <= i < old.args@.len() ==> {
                &&& (#[trigger] new.args@[i]).id@ == old.args@[i].id@
                &&& opt_text(new.args@[i].help) == opt_rebranded(old.args@[i].help, b)
                &&& opt_text(new.args@[i].long_help) == opt_rebranded(old.args@[i].long_help, b)
            },
        new.subcommands@.len() == old.subcommands@.len(),
        forall|i: int|
            0 <= i < old.subcommands@.len() ==> {
                &&& (#[trigger] new.subcommands@[i]).name@ == branded_name(old.subcommands@[i].name@, b)
                &&& command_rewritten(old.subcommands@[i], new.subcommands@[i], b)
            },
{
    assert forall|i: int| 0 <= i < old.args@.len() implies {
        &&& (#[trigger] new.args@[i]).id@ == old.args@[i].id@
        &&& opt_text(new.args@[i].help) == opt_rebranded(old.args@[i].help, b)
        &&& opt_text(new.args@[i].long_help) == opt_rebranded(old.args@[i].long_help, b)
    } by {
        assert(arg_rewritten(old.args@[i], new.args@[i], b, branded_name(old.name@, b) == "completion"@));
    }
    assert forall|i: int| 0 <= i < old.subcommands@.len() implies {
        &&& (#[trigger] new.subcommands@[i]).name@ == branded_name(old.subcommands@[i].name@, b)
        &&& command_rewritten(old.subcommands@[i], new.subcommands@[i], b)
    } by {
        assert(command_rewritten(old.subcommands@[i], new.subcommands@[i], b));
    }
}

} // verus!
