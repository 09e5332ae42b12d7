//! The command line.
//!
//! Reading the arguments comes in two steps, because whether a text is an
//! address is for the network to say: [`read_args`] finds the addresses that are
//! asked for, and [`parse_args`] takes what was said of each.

use crate::text;
use vstd::prelude::*;

verus! {

/// The product's name.
pub const PRODUCT: &'static str = "runtime-trail";

/// The version of this crate.
pub const VERSION: &'static str = "0.1.0";

/// The address that is listened on where none is asked for.
pub const DEFAULT_BIND: &'static str = "127.0.0.1:8599";

/// What is printed for `--help`.
pub const USAGE: &'static str =
    "runtime-trail — local developer observability and investigation runtime

USAGE:
    runtime-trail-server [OPTIONS]

OPTIONS:
    --bind <addr>       Address to listen on [default: 127.0.0.1:8599]
    --web-dist <path>   Serve the built UI from this directory
    -h, --help          Print this help
    -V, --version       Print version information
";

/// What the server is run with.
#[derive(Clone, Debug, PartialEq, Eq)]
pub struct ServerConfig {
    /// The address that is listened on.
    pub bind: String,
    /// The directory of a built UI, where one is served.
    pub web_dist: Option<String>,
}

/// What the server is run with.
pub ghost struct ConfigModel {
    /// The address that is listened on.
    pub bind: Seq<char>,
    /// The directory of a built UI.
    pub web_dist: Option<Seq<char>>,
}

/// The characters of an optional text.
pub open spec fn shown(text: Option<String>) -> Option<Seq<char>> {
    match text {
        Some(text) => Some(text@),
        None => None,
    }
}

impl View for ServerConfig {
    type V = ConfigModel;

    open spec fn view(&self) -> ConfigModel {
        ConfigModel { bind: self.bind@, web_dist: shown(self.web_dist) }
    }
}

impl Default for ServerConfig {
    /// The default address, and no UI.
    fn default() -> (config: ServerConfig)
        ensures
            config@ == (ConfigModel { bind: DEFAULT_BIND@, web_dist: None }),
    {
        ServerConfig { bind: DEFAULT_BIND.to_owned(), web_dist: None }
    }
}

/// What the command line asks for.
#[derive(Clone, Debug, PartialEq, Eq)]
pub enum Cli {
    /// Run with this configuration.
    Run(ServerConfig),
    /// Print the usage.
    Help,
    /// Print the version.
    Version,
}

/// Where reading the arguments ended.
#[derive(Clone, Debug, PartialEq, Eq)]
pub enum End {
    /// At the last argument.
    Last,
    /// At a request for help.
    Help,
    /// At a request for the version.
    Version,
    /// At `--bind`, with no address behind it.
    NoAddress,
    /// At `--web-dist`, with no directory behind it.
    NoDirectory,
    /// At an argument that means nothing.
    Unknown(String),
}

/// The arguments, up to where reading them ended.
#[derive(Clone, Debug, PartialEq, Eq)]
pub struct CommandLine {
    /// The addresses that are asked for, in order.
    pub binds: Vec<String>,
    /// The last directory that is asked for.
    pub web_dist: Option<String>,
    /// Where reading ended.
    pub end: End,
}

/// Where reading the arguments ended.
pub ghost enum EndModel {
    /// At the last argument.
    Last,
    /// At a request for help.
    Help,
    /// At a request for the version.
    Version,
    /// At `--bind`, with no address behind it.
    NoAddress,
    /// At `--web-dist`, with no directory behind it.
    NoDirectory,
    /// At an argument that means nothing.
    Unknown(Seq<char>),
}

/// The arguments, up to where reading them ended.
pub ghost struct LineModel {
    /// The addresses that are asked for, in order.
    pub binds: Seq<Seq<char>>,
    /// The last directory that is asked for.
    pub web_dist: Option<Seq<char>>,
    /// Where reading ended.
    pub end: EndModel,
}

impl View for End {
    type V = EndModel;

    open spec fn view(&self) -> EndModel {
        match *self {
            End::Last => EndModel::Last,
            End::Help => EndModel::Help,
            End::Version => EndModel::Version,
            End::NoAddress => EndModel::NoAddress,
            End::NoDirectory => EndModel::NoDirectory,
            End::Unknown(argument) => EndModel::Unknown(argument@),
        }
    }
}

impl View for CommandLine {
    type V = LineModel;

    open spec fn view(&self) -> LineModel {
        LineModel {
            binds: texts(self.binds@),
            web_dist: shown(self.web_dist),
            end: self.end@,
        }
    }
}

/// The characters of each of several texts.
pub open spec fn texts(strings: Seq<String>) -> Seq<Seq<char>> {
    Seq::new(strings.len(), |i: int| strings[i]@)
}

/// A line that ends at once.
pub open spec fn ended(end: EndModel) -> LineModel {
    LineModel { binds: Seq::empty(), web_dist: None, end }
}

/// A line before which these addresses and this directory were asked for.
pub open spec fn preceded(
    binds: Seq<Seq<char>>,
    web_dist: Option<Seq<char>>,
    line: LineModel,
) -> LineModel {
    LineModel {
        binds: binds + line.binds,
        web_dist: if line.web_dist is Some {
            line.web_dist
        } else {
            web_dist
        },
        end: line.end,
    }
}

/// What the arguments ask for, read in order up to the first that ends the
/// reading.
pub open spec fn line_of(args: Seq<Seq<char>>) -> LineModel
    decreases args.len(),
{
    if args.len() == 0 {
        ended(EndModel::Last)
    } else if args[0] == "--help"@ || args[0] == "-h"@ {
        ended(EndModel::Help)
    } else if args[0] == "--version"@ || args[0] == "-V"@ {
        ended(EndModel::Version)
    } else if args[0] == "--bind"@ {
        if args.len() == 1 {
            ended(EndModel::NoAddress)
        } else {
            preceded(seq![args[1]], None, line_of(args.skip(2)))
        }
    } else if args[0] == "--web-dist"@ {
        if args.len() == 1 {
            ended(EndModel::NoDirectory)
        } else {
            preceded(Seq::empty(), Some(args[1]), line_of(args.skip(2)))
        }
    } else {
        ended(EndModel::Unknown(args[0]))
    }
}

proof fn preceded_twice(
    binds: Seq<Seq<char>>,
    web_dist: Option<Seq<char>>,
    more: Seq<Seq<char>>,
    later: Option<Seq<char>>,
    line: LineModel,
)
    ensures
        preceded(binds, web_dist, preceded(more, later, line)) == preceded(
            binds + more,
            if later is Some {
                later
            } else {
                web_dist
            },
            line,
        ),
{
    assert(binds + (more + line.binds) =~= binds + more + line.binds);
}

/// Reads the arguments in order, up to the first that ends the reading.
pub fn read_args(args: &Vec<String>) -> (line: CommandLine)
    ensures
        line@ == line_of(texts(args@)),
{
    let ghost all = texts(args@);
    let mut binds: Vec<String> = Vec::new();
    let mut web_dist: Option<String> = None;
    let mut i: usize = 0;
    let length: usize = args.len();
    assert(all.skip(0) =~= all);
    assert(preceded(texts(binds@), None, line_of(all)).binds =~= line_of(all).binds);
    while i < length
        invariant
            i <= length == args@.len(),
            all == texts(args@),
            line_of(all) == preceded(texts(binds@), shown(web_dist), line_of(all.skip(i as int))),
        decreases length - i,
    {
        let arg = args[i].as_str();
        let ghost rest = all.skip(i as int);
        assert(rest[0] == arg@);
        let mut end: Option<End> = None;
        if text::same(arg, "--help") || text::same(arg, "-h") {
            end = Some(End::Help);
        } else if text::same(arg, "--version") || text::same(arg, "-V") {
            end = Some(End::Version);
        } else if text::same(arg, "--bind") {
            if length - i == 1 {
                end = Some(End::NoAddress);
            } else {
                let ghost before = texts(binds@);
                let ghost dist = shown(web_dist);
                let value = args[i + 1].as_str().to_owned();
                binds.push(value);
                proof {
                    assert(rest.skip(2) =~= all.skip(i + 2));
                    assert(rest[1] == value@);
                    assert(texts(binds@) =~= before + seq![rest[1]]);
                    preceded_twice(before, dist, seq![rest[1]], None, line_of(all.skip(i + 2)));
                }
                i += 2;
            }
        } else if text::same(arg, "--web-dist") {
            if length - i == 1 {
                end = Some(End::NoDirectory);
            } else {
                let ghost dist = shown(web_dist);
                let value = args[i + 1].as_str().to_owned();
                proof {
                    assert(rest.skip(2) =~= all.skip(i + 2));
                    assert(rest[1] == value@);
                    preceded_twice(
                        texts(binds@),
                        dist,
                        Seq::empty(),
                        Some(rest[1]),
                        line_of(all.skip(i + 2)),
                    );
                    assert(texts(binds@) + Seq::<Seq<char>>::empty() =~= texts(binds@));
                }
                web_dist = Some(value);
                i += 2;
            }
        } else {
            end = Some(End::Unknown(arg.to_owned()));
        }
        match end {
            Some(end) => {
                let line = CommandLine { binds, web_dist, end };
                assert(line@.binds =~= line_of(all).binds);
                return line;
            },
            None => {},
        }
    }
    let line = CommandLine { binds, web_dist, end: End::Last };
    assert(line@.binds =~= line_of(all).binds);
    line
}

/// What is said of a text that is no address.
pub open spec fn refused_address_text(value: Seq<char>, refusal: Seq<char>) -> Seq<char> {
    "invalid --bind address "@ + text::debug_of_text(value) + ": "@ + refusal
}

/// The first address that was refused, with what was said of it.
pub open spec fn first_refused(binds: Seq<Seq<char>>, refusals: Seq<Option<Seq<char>>>) -> Option<
    (Seq<char>, Seq<char>),
>
    decreases binds.len(),
{
    if binds.len() == 0 || refusals.len() == 0 {
        None
    } else {
        match refusals[0] {
            Some(refusal) => Some((binds[0], refusal)),
            None => first_refused(binds.skip(1), refusals.skip(1)),
        }
    }
}

/// What was said of each address.
pub open spec fn shown_all(refusals: Seq<Option<String>>) -> Seq<Option<Seq<char>>> {
    Seq::new(refusals.len(), |i: int| shown(refusals[i]))
}

/// The last of the addresses that are asked for, or the default one.
pub open spec fn bind_of(binds: Seq<Seq<char>>) -> Seq<char> {
    if binds.len() == 0 {
        DEFAULT_BIND@
    } else {
        binds.last()
    }
}

/// What a command line asks for, or what is printed of it. `refusals` holds what
/// the network says of each address that is asked for: nothing where it is one.
/// The first address that is none ends the reading, before anything that stands
/// behind it.
pub fn parse_args(line: CommandLine, refusals: &Vec<Option<String>>) -> (cli: Result<Cli, String>)
    requires
        refusals@.len() == line.binds@.len(),
    ensures
        match first_refused(line@.binds, shown_all(refusals@)) {
            Some((value, refusal)) => cli matches Err(message) && message@ == refused_address_text(
                value,
                refusal,
            ),
            None => match line@.end {
                EndModel::Last => cli matches Ok(Cli::Run(config)) && config@ == (ConfigModel {
                    bind: bind_of(line@.binds),
                    web_dist: line@.web_dist,
                }),
                EndModel::Help => cli matches Ok(Cli::Help),
                EndModel::Version => cli matches Ok(Cli::Version),
                EndModel::NoAddress => cli matches Err(message) && message@
                    == "--bind requires an address"@,
                EndModel::NoDirectory => cli matches Err(message) && message@
                    == "--web-dist requires a directory"@,
                EndModel::Unknown(argument) => cli matches Err(message) && message@
                    == "unknown argument "@ + text::debug_of_text(argument),
            },
        },
{
    let ghost binds = texts(line.binds@);
    let ghost said = shown_all(refusals@);
    let mut i: usize = 0;
    assert(binds.skip(0) =~= binds);
    assert(said.skip(0) =~= said);
    while i < refusals.len()
        invariant
            i <= refusals@.len() == line.binds@.len(),
            binds == texts(line.binds@),
            binds == line@.binds,
            said == shown_all(refusals@),
            first_refused(binds, said) == first_refused(binds.skip(i as int), said.skip(i as int)),
        decreases refusals@.len() - i,
    {
        assert(binds.skip(i as int).skip(1) =~= binds.skip(i + 1));
        assert(said.skip(i as int).skip(1) =~= said.skip(i + 1));
        assert(said.skip(i as int)[0] == shown(refusals@[i as int]));
        match &refusals[i] {
            Some(refusal) => {
                let mut message = "invalid --bind address ".to_owned();
                message.append(text::debug_text(line.binds[i].as_str()).as_str());
                message.append(": ");
                message.append(refusal.as_str());
                assert(binds.skip(i as int)[0] == line.binds@[i as int]@);
                return Err(message);
            },
            None => {},
        }
        i += 1;
    }
    match line.end {
        End::Last => {
            let bind = if line.binds.len() == 0 {
                DEFAULT_BIND.to_owned()
            } else {
                line.binds[line.binds.len() - 1].as_str().to_owned()
            };
            Ok(Cli::Run(ServerConfig { bind, web_dist: line.web_dist }))
        },
        End::Help => Ok(Cli::Help),
        End::Version => Ok(Cli::Version),
        End::NoAddress => Err("--bind requires an address".to_owned()),
        End::NoDirectory => Err("--web-dist requires a directory".to_owned()),
        End::Unknown(argument) => {
            let mut message = "unknown argument ".to_owned();
            message.append(text::debug_text(argument.as_str()).as_str());
            Err(message)
        },
    }
}

/// What stands behind a request for help or for the version, or behind an
/// argument that means nothing, has no effect.
pub proof fn nothing_counts_behind_the_end(args: Seq<Seq<char>>, more: Seq<Seq<char>>)
    requires
        line_of(args).end is Help || line_of(args).end is Version || line_of(args).end is Unknown,
    ensures
        line_of(args + more) == line_of(args),
    decreases args.len(),
{
    if args.len() > 0 {
        assert((args + more)[0] == args[0]);
        if args.len() > 1 {
            assert((args + more)[1] == args[1]);
            assert((args + more).skip(2) =~= args.skip(2) + more);
            if line_of(args.skip(2)).end == line_of(args).end {
                nothing_counts_behind_the_end(args.skip(2), more);
            }
        }
    }
}

/// Each argument means what it says, whatever follows it: `--help` and `-h` ask
/// for help, `--version` and `-V` for the version, `--bind` for the address behind
/// it and `--web-dist` for the directory behind it. Any other is unknown, and so is
/// nothing behind it.
pub proof fn an_argument_means_what_it_says(
    argument: Seq<char>,
    value: Seq<char>,
    rest: Seq<Seq<char>>,
)
    ensures
        line_of(Seq::empty()) == (LineModel {
            binds: Seq::empty(),
            web_dist: None,
            end: EndModel::Last,
        }),
        argument == "--help"@ || argument == "-h"@ ==> line_of(seq![argument] + rest) == (
        LineModel { binds: Seq::empty(), web_dist: None, end: EndModel::Help }),
        argument == "--version"@ || argument == "-V"@ ==> line_of(seq![argument] + rest) == (
        LineModel { binds: Seq::empty(), web_dist: None, end: EndModel::Version }),
        line_of(seq!["--bind"@]) == (LineModel {
            binds: Seq::empty(),
            web_dist: None,
            end: EndModel::NoAddress,
        }),
        line_of(seq!["--bind"@, value] + rest) == (LineModel {
            binds: seq![value] + line_of(rest).binds,
            ..line_of(rest)
        }),
        line_of(seq!["--web-dist"@]) == (LineModel {
            binds: Seq::empty(),
            web_dist: None,
            end: EndModel::NoDirectory,
        }),
        line_of(seq!["--web-dist"@, value] + rest) == (LineModel {
            web_dist: Some(
                match line_of(rest).web_dist {
                    Some(later) => later,
                    None => value,
                },
            ),
            ..line_of(rest)
        }),
        argument != "--help"@ && argument != "-h"@ && argument != "--version"@ && argument
            != "-V"@ && argument != "--bind"@ && argument != "--web-dist"@ ==> line_of(
            seq![argument] + rest,
        ) == (LineModel {
            binds: Seq::empty(),
            web_dist: None,
            end: EndModel::Unknown(argument),
        }),
{
    reveal_strlit("--help");
    reveal_strlit("-h");
    reveal_strlit("--version");
    reveal_strlit("-V");
    reveal_strlit("--bind");
    reveal_strlit("--web-dist");
    assert("--version"@[2] != "--help"@[2] && "--version"@.len() != "-h"@.len());
    assert("-V"@[1] != "-h"@[1] && "-V"@.len() != "--help"@.len());
    assert("--bind"@[2] != "--help"@[2] && "--bind"@.len() != "--version"@.len());
    assert("--web-dist"@.len() != "--help"@.len() && "--web-dist"@.len() != "--version"@.len());
    let all = seq![argument] + rest;
    assert(all[0] == argument);
    let bind = seq!["--bind"@, value] + rest;
    assert(bind[0] == "--bind"@ && bind[1] == value);
    assert(bind.skip(2) =~= rest);
    let web = seq!["--web-dist"@, value] + rest;
    assert(web[0] == "--web-dist"@ && web[1] == value);
    assert(web.skip(2) =~= rest);
    assert(Seq::<Seq<char>>::empty() + line_of(rest).binds =~= line_of(rest).binds);
}

/// What is read of the arguments is what they mean, one by one.
pub proof fn the_arguments_are_read(args: Vec<String>, line: CommandLine)
    requires
        call_ensures(read_args, (&args,), line),
    ensures
        ({
            let meant = line_of(Seq::new(args@.len(), |i: int| args@[i]@));
            &&& line.binds@.len() == meant.binds.len()
            &&& forall|i: int|
                0 <= i < line.binds@.len() ==> (#[trigger] line.binds@[i])@ == meant.binds[i]
            &&& match line.web_dist {
                Some(directory) => meant.web_dist == Some(directory@),
                None => meant.web_dist is None,
            }
            &&& match line.end {
                End::Last => meant.end == EndModel::Last,
                End::Help => meant.end == EndModel::Help,
                End::Version => meant.end == EndModel::Version,
                End::NoAddress => meant.end == EndModel::NoAddress,
                End::NoDirectory => meant.end == EndModel::NoDirectory,
                End::Unknown(argument) => meant.end == EndModel::Unknown(argument@),
            }
        }),
{
    assert(texts(args@) =~= Seq::new(args@.len(), |i: int| args@[i]@));
    assert forall|i: int| 0 <= i < line.binds@.len() implies (#[trigger] line.binds@[i])@
        == line_of(texts(args@)).binds[i] by {
        assert(texts(line.binds@)[i] == line.binds@[i]@);
    }
}

proof fn the_first_refusal_counts(
    binds: Seq<Seq<char>>,
    refusals: Seq<Option<Seq<char>>>,
    index: int,
)
    requires
        binds.len() == refusals.len(),
        0 <= index <= refusals.len(),
        forall|i: int| 0 <= i < index ==> #[trigger] refusals[i] is None,
    ensures
        index == refusals.len() ==> first_refused(binds, refusals) is None,
        index < refusals.len() && refusals[index] is Some ==> first_refused(binds, refusals)
            == Some((binds[index], refusals[index]->Some_0)),
    decreases refusals.len(),
{
    if index > 0 {
        assert(refusals[0] is None);
        assert forall|i: int| 0 <= i < index - 1 implies #[trigger] refusals.skip(1)[i] is None by {
            assert(refusals[i + 1] is None);
        }
        the_first_refusal_counts(binds.skip(1), refusals.skip(1), index - 1);
    }
}

/// A command line is answered for the first address that was refused; and where
/// none was, for where reading it ended. The server is run on the last address
/// asked for, or on 127.0.0.1:8599.
pub proof fn a_command_line_is_answered(
    line: CommandLine,
    refusals: Vec<Option<String>>,
    cli: Result<Cli, String>,
    index: int,
)
    requires
        call_ensures(parse_args, (line, &refusals), cli),
        refusals@.len() == line.binds@.len(),
        0 <= index <= refusals@.len(),
        forall|i: int| 0 <= i < index ==> #[trigger] refusals@[i] is None,
        index < refusals@.len() ==> refusals@[index] is Some,
    ensures
        index < refusals@.len() ==> (cli matches Err(message) && message@
            == "invalid --bind address "@ + text::debug_of_text(line.binds@[index]@) + ": "@
            + refusals@[index]->Some_0@),
        index == refusals@.len() ==> match line.end {
            End::Last => cli matches Ok(Cli::Run(config)) && {
                &&& config.bind@ == if line.binds@.len() == 0 {
                    "127.0.0.1:8599"@
                } else {
                    line.binds@[line.binds@.len() - 1]@
                }
                &&& match (config.web_dist, line.web_dist) {
                    (Some(served), Some(asked)) => served@ == asked@,
                    (None, None) => true,
                    _ => false,
                }
            },
            End::Help => cli matches Ok(Cli::Help),
            End::Version => cli matches Ok(Cli::Version),
            End::NoAddress => cli matches Err(message) && message@ == "--bind requires an address"@,
            End::NoDirectory => cli matches Err(message) && message@
                == "--web-dist requires a directory"@,
            End::Unknown(argument) => cli matches Err(message) && message@ == "unknown argument "@
                + text::debug_of_text(argument@),
        },
{
    let said = shown_all(refusals@);
    assert forall|i: int| 0 <= i < index implies #[trigger] said[i] is None by {
        assert(refusals@[i] is None);
    }
    the_first_refusal_counts(line@.binds, said, index);
}

/// Without arguments the server is run on 127.0.0.1:8599, without a UI.
pub proof fn the_default_is_the_local_address(config: ServerConfig)
    requires
        call_ensures(<ServerConfig as Default>::default, (), config),
    ensures
        config.bind@ == "127.0.0.1:8599"@,
        config.web_dist is None,
{
}

}
