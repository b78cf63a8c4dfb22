//! Laws of the command line.

use crate::options::{Options, OptionsView};
use crate::text::texts;
use vstd::prelude::*;

verus! {

/// The first argument is the command and the rest are its arguments, in their
/// order and all of them; before it may stand the flag with an id, which names
/// the daemon and plays no part in the command.
pub proof fn law_command_and_arguments_are_read(
    id: Seq<char>,
    command: Seq<char>,
    args: Seq<Seq<char>>,
)
    ensures
        command != "--instance-id"@ ==> OptionsView::read(seq![command] + args) == Some(
            OptionsView { instance_id: None, server_command: command, server_args: args },
        ),
        OptionsView::read(seq!["--instance-id"@, id, command] + args) == Some(
            OptionsView { instance_id: Some(id), server_command: command, server_args: args },
        ),
{
    let one = seq![command] + args;
    let two = seq!["--instance-id"@, id, command] + args;
    assert(one.skip(1) =~= args);
    assert(two.skip(2) =~= one);
    assert(two[0] == "--instance-id"@ && two[1] == id);
}

/// Without a command rust-analyzer is run, without arguments; the flag alone, with
/// no id behind it, is refused.
pub proof fn law_rust_analyzer_is_the_default(id: Seq<char>)
    ensures
        OptionsView::read(Seq::empty()) == Some(
            OptionsView {
                instance_id: None,
                server_command: "rust-analyzer"@,
                server_args: Seq::empty(),
            },
        ),
        OptionsView::read(seq!["--instance-id"@, id]) == Some(
            OptionsView {
                instance_id: Some(id),
                server_command: "rust-analyzer"@,
                server_args: Seq::empty(),
            },
        ),
        OptionsView::read(seq!["--instance-id"@]) is None,
{
    assert(seq!["--instance-id"@, id].skip(2) =~= Seq::empty());
}

/// The socket stands in `/tmp`, and its name holds the id as it is, where there
/// is one; the command plays no part in it.
pub proof fn law_socket_is_named_by_the_id(
    id: Seq<char>,
    server_command: Seq<char>,
    server_args: Seq<Seq<char>>,
)
    ensures
        (OptionsView { instance_id: Some(id), server_command, server_args }).socket_path()
            == "/tmp/lsp-multiplexer-"@ + id + ".sock"@,
        (OptionsView { instance_id: None, server_command, server_args }).socket_path()
            == "/tmp/lsp-multiplexer.sock"@,
{
}

/// Options are seen with all that they hold.
pub proof fn law_options_are_seen_whole(options: Options)
    ensures
        options@.instance_id is Some <==> options.instance_id is Some,
        options.instance_id matches Some(id) ==> options@.instance_id == Some(id@),
        options@.server_command == options.server_command@,
        options@.server_args == texts(options.server_args@),
{
}

} // verus!
