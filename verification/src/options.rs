//! What the daemon is told on its command line:
//! `lsp-muxd [--instance-id <ID>] <server-command> [server-args]...`.

use crate::text::texts;
use vstd::prelude::*;
use vstd::string::StringExecFns;

verus! {

/// What the daemon is to run, and under which name.
#[derive(Debug)]
pub struct Options {
    /// Tells several daemons of one machine apart.
    pub instance_id: Option<String>,
    /// The command that starts the server.
    pub server_command: String,
    /// What the command is given.
    pub server_args: Vec<String>,
}

#[verifier::ext_equal]
pub struct OptionsView {
    pub instance_id: Option<Seq<char>>,
    pub server_command: Seq<char>,
    pub server_args: Seq<Seq<char>>,
}

impl View for Options {
    type V = OptionsView;

    open spec fn view(&self) -> OptionsView {
        OptionsView {
            instance_id: match self.instance_id {
                Some(id) => Some(id@),
                None => None,
            },
            server_command: self.server_command@,
            server_args: texts(self.server_args@),
        }
    }
}

/// `--instance-id` stands last, with no id behind it.
#[derive(Debug, PartialEq)]
pub struct MissingInstanceId;

impl OptionsView {
    /// An id, and the command with its arguments: rust-analyzer where there is
    /// none.
    pub open spec fn of(instance_id: Option<Seq<char>>, command: Seq<Seq<char>>) -> OptionsView {
        if command.len() == 0 {
            OptionsView {
                instance_id,
                server_command: "rust-analyzer"@,
                server_args: Seq::empty(),
            }
        } else {
            OptionsView { instance_id, server_command: command[0], server_args: command.skip(1) }
        }
    }

    /// What the arguments of the daemon say, if they say anything.
    pub open spec fn read(args: Seq<Seq<char>>) -> Option<OptionsView> {
        if args.len() == 0 || args[0] != "--instance-id"@ {
            Some(OptionsView::of(None, args))
        } else if args.len() == 1 {
            None
        } else {
            Some(OptionsView::of(Some(args[1]), args.skip(2)))
        }
    }

    /// The path of the socket that the daemon listens on.
    pub open spec fn socket_path(self) -> Seq<char> {
        match self.instance_id {
            Some(id) => "/tmp/lsp-multiplexer-"@ + id + ".sock"@,
            None => "/tmp/lsp-multiplexer.sock"@,
        }
    }
}

/// Copies what stands at `start` and behind it.
fn tail(args: &Vec<String>, start: usize) -> (rest: Vec<String>)
    requires
        start <= args.len(),
    ensures
        texts(rest@) == texts(args@).skip(start as int),
{
    let mut rest: Vec<String> = Vec::new();
    let mut i: usize = start;
    while i < args.len()
        invariant
            start <= i <= args.len(),
            texts(rest@) == texts(args@).subrange(start as int, i as int),
        decreases args.len() - i,
    {
        let ghost before = rest@;
        rest.push(args[i].clone());
        assert(texts(rest@) =~= texts(before).push(args@[i as int]@));
        i = i + 1;
    }
    assert(texts(args@).subrange(start as int, i as int) =~= texts(args@).skip(start as int));
    rest
}

/// The options with this id, and with the command that stands at `start`.
fn options_of(instance_id: Option<String>, args: &Vec<String>, start: usize) -> (options: Options)
    requires
        start <= args.len(),
    ensures
        options@ == OptionsView::of(
            match instance_id {
                Some(id) => Some(id@),
                None => None,
            },
            texts(args@).skip(start as int),
        ),
{
    let ghost command = texts(args@).skip(start as int);
    if start == args.len() {
        let options = Options {
            instance_id,
            server_command: "rust-analyzer".to_owned(),
            server_args: Vec::new(),
        };
        assert(options@.server_args =~= Seq::empty());
        options
    } else {
        let options = Options {
            instance_id,
            server_command: args[start].clone(),
            server_args: tail(args, start + 1),
        };
        assert(options@.server_args =~= command.skip(1));
        options
    }
}

impl Options {
    /// Reads the arguments of the daemon.
    pub fn from_args(args: &Vec<String>) -> (result: Result<Options, MissingInstanceId>)
        ensures
            match OptionsView::read(texts(args@)) {
                Some(options) => result matches Ok(read) && read@ == options,
                None => result is Err,
            },
    {
        assert(texts(args@).skip(0) =~= texts(args@));
        if args.len() == 0 || args[0] != "--instance-id".to_owned() {
            Ok(options_of(None, args, 0))
        } else if args.len() == 1 {
            Err(MissingInstanceId)
        } else {
            Ok(options_of(Some(args[1].clone()), args, 2))
        }
    }

    /// The path of the socket that the daemon listens on.
    pub fn socket_path(&self) -> (path: String)
        ensures
            path@ == self@.socket_path(),
    {
        match &self.instance_id {
            Some(id) => {
                let mut path = "/tmp/lsp-multiplexer-".to_owned();
                path.append(id.as_str());
                path.append(".sock");
                path
            },
            None => "/tmp/lsp-multiplexer.sock".to_owned(),
        }
    }
}

/// Daemons with different ids listen on different sockets.
pub proof fn law_instances_do_not_share_a_socket(a: OptionsView, b: OptionsView)
    requires
        a.socket_path() == b.socket_path(),
    ensures
        a.instance_id == b.instance_id,
{
    let prefix = "/tmp/lsp-multiplexer-"@;
    let suffix = ".sock"@;
    let plain = "/tmp/lsp-multiplexer.sock"@;
    reveal_strlit("/tmp/lsp-multiplexer-");
    reveal_strlit(".sock");
    reveal_strlit("/tmp/lsp-multiplexer.sock");
    assert(prefix.len() == 21 && suffix.len() == 5 && plain.len() == 25);
    assert(prefix[20] == '-' && plain[20] == '.');
    match (a.instance_id, b.instance_id) {
        (Some(x), Some(y)) => {
            let p = a.socket_path();
            assert(p.len() == prefix.len() + x.len() + suffix.len());
            assert(p.len() == prefix.len() + y.len() + suffix.len());
            assert(x =~= p.subrange(21, 21 + x.len() as int));
            assert(y =~= b.socket_path().subrange(21, 21 + y.len() as int));
        },
        (Some(x), None) => {
            assert(a.socket_path()[20] == '-');
        },
        (None, Some(y)) => {
            assert(b.socket_path()[20] == '-');
        },
        (None, None) => {},
    }
}

} // verus!
