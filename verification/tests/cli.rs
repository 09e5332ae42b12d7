//! The command line.

use runtime_trail::cli::{
    parse_args, read_args, Cli, CommandLine, End, ServerConfig, PRODUCT, USAGE, VERSION,
};

/// Reads a command line whose addresses are all accepted.
fn parse(args: &[&str]) -> Result<Cli, String> {
    let line = read(args);
    let refusals = vec![None; line.binds.len()];
    parse_args(line, &refusals)
}

fn read(args: &[&str]) -> CommandLine {
    read_args(&args.iter().map(|arg| (*arg).to_owned()).collect())
}

#[test]
fn exposes_a_version() {
    assert!(!VERSION.is_empty());
}

#[test]
fn parses_the_documented_flags() {
    let cli = parse(&["--bind", "0.0.0.0:9000", "--web-dist", "/srv/ui"])
        .expect("documented flags parse");
    let Cli::Run(config) = cli else {
        panic!("flags should produce a Run command");
    };
    assert_eq!(config.bind, "0.0.0.0:9000");
    assert_eq!(config.web_dist.as_deref(), Some("/srv/ui"));
}

#[test]
fn rejects_unknown_arguments() {
    let error = parse(&["--no-such-flag"]).expect_err("unknown flags are refused");
    assert!(error.contains("--no-such-flag"));
    assert_eq!(error, "unknown argument \"--no-such-flag\"");
}

#[test]
fn defaults_bind_to_localhost() {
    let Cli::Run(config) = parse(&[]).expect("empty args parse") else {
        panic!("empty args should produce a Run command");
    };
    assert_eq!(config.bind, "127.0.0.1:8599");
    assert_eq!(config, ServerConfig::default());
}

#[test]
fn help_and_version_win_over_what_follows() {
    assert_eq!(parse(&["--help", "--nonsense"]), Ok(Cli::Help));
    assert_eq!(parse(&["-h"]), Ok(Cli::Help));
    assert_eq!(parse(&["-V", "--bind"]), Ok(Cli::Version));
    assert_eq!(parse(&["--version"]), Ok(Cli::Version));
    assert_eq!(read(&["--bind", "a", "-h", "--bind", "b"]).binds, vec!["a"]);
}

#[test]
fn flags_without_a_value_are_refused() {
    assert_eq!(
        parse(&["--bind"]),
        Err("--bind requires an address".to_owned())
    );
    assert_eq!(
        parse(&["--web-dist"]),
        Err("--web-dist requires a directory".to_owned())
    );
}

#[test]
fn the_last_value_of_a_flag_counts() {
    let Ok(Cli::Run(config)) = parse(&[
        "--bind", "a", "--web-dist", "x", "--bind", "b", "--web-dist", "y",
    ]) else {
        panic!("the flags parse");
    };
    assert_eq!((config.bind.as_str(), config.web_dist.as_deref()), ("b", Some("y")));
}

#[test]
fn a_refused_address_ends_the_reading() {
    let line = read(&["--bind", "good", "--bind", "b\"ad", "--help"]);
    assert_eq!(line.end, End::Help);
    let refusals = vec![None, Some("invalid socket address syntax".to_owned())];
    assert_eq!(
        parse_args(line, &refusals),
        Err("invalid --bind address \"b\\\"ad\": invalid socket address syntax".to_owned())
    );
}

#[test]
fn the_usage_names_the_product_and_every_flag() {
    assert!(USAGE.starts_with(PRODUCT));
    for flag in ["--bind", "--web-dist", "-h, --help", "-V, --version", "127.0.0.1:8599"] {
        assert!(USAGE.contains(flag), "{flag}");
    }
    assert!(USAGE.ends_with("Print version information\n"));
}
