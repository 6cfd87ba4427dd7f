//! The command line: options and the URLs to analyse.
use vstd::prelude::*;

use crate::error::TlsError;
use crate::text::{owned, push_str, starts_with_seq, str_eq, str_starts_with};
use crate::tls::types::{lemma_strings_view_push, strings_view};

verus! {

/// What the arguments from position `i` on mean, given the output directory,
/// URLs and JSON flag gathered so far: `--output-dir DIR` sets the
/// directory, `--json` the flag, any other argument starting with `--` is
/// an error, and every other argument is a URL.
pub open spec fn parse_args_from(
    args: Seq<Seq<char>>,
    i: int,
    dir: Seq<char>,
    urls: Seq<Seq<char>>,
    json: bool,
) -> Result<(Seq<char>, Seq<Seq<char>>, bool), Seq<char>>
    decreases args.len() - i,
{
    if i < 0 || i >= args.len() {
        Ok((dir, urls, json))
    } else if args[i] == "--output-dir"@ {
        if i + 1 >= args.len() {
            Err("--output-dir requires a directory path"@)
        } else {
            parse_args_from(args, i + 2, args[i + 1], urls, json)
        }
    } else if args[i] == "--json"@ {
        parse_args_from(args, i + 1, dir, urls, true)
    } else if starts_with_seq(args[i], "--"@) {
        Err("Unknown option: "@ + args[i])
    } else {
        parse_args_from(args, i + 1, dir, urls.push(args[i]), json)
    }
}

/// What the arguments mean, starting from the current directory `.`, no
/// URLs and no JSON output.
pub open spec fn parsed_args(args: Seq<String>) -> Result<(Seq<char>, Seq<Seq<char>>, bool), Seq<char>> {
    parse_args_from(strings_view(args), 0, "."@, seq![], false)
}

/// Reads the options and URLs of the command line (program name excluded):
/// the output directory, the URLs in order, and whether JSON is wanted.
pub fn parse_args(args: &[String]) -> (r: Result<(String, Vec<String>, bool), TlsError>)
    ensures
        match parsed_args(args@) {
            Ok((dir, urls, json)) => r matches Ok((d, u, j)) && d@ == dir && strings_view(u@)
                == urls && j == json,
            Err(msg) => r matches Err(TlsError::Other(m)) && m@ == msg,
        },
{
    let ghost av = strings_view(args@);
    let mut output_dir = owned(".");
    let mut urls: Vec<String> = Vec::new();
    let mut output_json = false;
    let mut i: usize = 0;
    assert(strings_view(urls@) =~= Seq::<Seq<char>>::empty());
    while i < args.len()
        invariant
            i <= args@.len(),
            av == strings_view(args@),
            av.len() == args@.len(),
            parsed_args(args@) == parse_args_from(
                av,
                i as int,
                output_dir@,
                strings_view(urls@),
                output_json,
            ),
        decreases args@.len() - i,
    {
        assert(av[i as int] == args@[i as int]@);
        if str_eq(args[i].as_str(), "--output-dir") {
            if i + 1 >= args.len() {
                return Err(TlsError::Other(owned("--output-dir requires a directory path")));
            }
            assert(av[i + 1] == args@[i + 1]@);
            output_dir = args[i + 1].clone();
            i = i + 2;
        } else if str_eq(args[i].as_str(), "--json") {
            output_json = true;
            i = i + 1;
        } else if str_starts_with(args[i].as_str(), "--") {
            let mut msg = owned("Unknown option: ");
            push_str(&mut msg, args[i].as_str());
            return Err(TlsError::Other(msg));
        } else {
            let u = args[i].clone();
            proof {
                lemma_strings_view_push(urls@, u);
            }
            urls.push(u);
            i = i + 1;
        }
    }
    Ok((output_dir, urls, output_json))
}

/// With no argument starting with `--`, every argument is a URL, in order,
/// written to the current directory without JSON.
pub proof fn law_plain_arguments_are_urls(args: Seq<Seq<char>>)
    requires
        forall|i: int| 0 <= i < args.len() ==> !starts_with_seq(#[trigger] args[i], "--"@),
    ensures
        parse_args_from(args, 0, "."@, seq![], false) == Ok::<
            (Seq<char>, Seq<Seq<char>>, bool),
            Seq<char>,
        >(("."@, args, false)),
{
    lemma_plain_from(args, 0);
    assert(args.take(0) =~= Seq::<Seq<char>>::empty());
}

/// The induction behind [`law_plain_arguments_are_urls`].
proof fn lemma_plain_from(args: Seq<Seq<char>>, i: int)
    requires
        0 <= i <= args.len(),
        forall|j: int| 0 <= j < args.len() ==> !starts_with_seq(#[trigger] args[j], "--"@),
    ensures
        parse_args_from(args, i, "."@, args.take(i), false) == Ok::<
            (Seq<char>, Seq<Seq<char>>, bool),
            Seq<char>,
        >(("."@, args, false)),
    decreases args.len() - i,
{
    reveal_strlit("--");
    reveal_strlit("--output-dir");
    reveal_strlit("--json");
    if i == args.len() {
        assert(args.take(i) =~= args);
    } else {
        let a = args[i];
        assert(!starts_with_seq(a, "--"@));
        if a == "--output-dir"@ {
            assert(a.take(2) =~= "--"@);
        }
        if a == "--json"@ {
            assert(a.take(2) =~= "--"@);
        }
        assert(args.take(i).push(a) =~= args.take(i + 1));
        lemma_plain_from(args, i + 1);
    }
}

/// The error text `url::Url::parse` gives for `s`, or `None` when it
/// accepts `s`.
pub uninterp spec fn url_parse_error(s: Seq<char>) -> Option<Seq<char>>;

/// The host of the URL `s`, as `url::Url::host_str` gives it.
pub uninterp spec fn url_host(s: Seq<char>) -> Option<Seq<char>>;

/// The port of the URL `s`, as `url::Url::port` gives it (none when the URL
/// names none, or names the scheme's default).
pub uninterp spec fn url_port(s: Seq<char>) -> Option<u16>;

/// Calls `url::Url::parse`, then `host_str` and `port` on the result.
/// Trusted: an error exactly when the named parse error is there, with its
/// text; otherwise the named host and port of `s`.
#[verifier::external_body]
fn parse_url(s: &str) -> (r: Result<(Option<String>, Option<u16>), String>)
    ensures
        match url_parse_error(s@) {
            Some(e) => r matches Err(m) && m@ == e,
            None => r matches Ok((h, p)) && p == url_port(s@) && match h {
                Some(x) => url_host(s@) == Some(x@),
                None => url_host(s@) is None,
            },
        },
{
    match url::Url::parse(s) {
        Ok(u) => Ok((u.host_str().map(|h| h.to_string()), u.port())),
        Err(e) => Err(e.to_string()),
    }
}

/// The host and port to connect to for `url_str`, given what parsing it
/// gave: the parse error, or its host and port (443 when it names none).
pub open spec fn url_target_spec(
    url_str: Seq<char>,
    parsed: Result<(Option<Seq<char>>, Option<u16>), Seq<char>>,
) -> Result<(Seq<char>, u16), Seq<char>> {
    match parsed {
        Err(e) => Err("Failed to parse URL '"@ + url_str + "': "@ + e),
        Ok((None, _)) => Err("URL must include a host"@),
        Ok((Some(h), p)) => Ok(
            (
                h,
                match p {
                    Some(n) => n,
                    None => 443u16,
                },
            ),
        ),
    }
}

/// The model of what parsing a URL gave.
pub open spec fn parsed_url_view(parsed: Result<(Option<String>, Option<u16>), String>) -> Result<
    (Option<Seq<char>>, Option<u16>),
    Seq<char>,
> {
    match parsed {
        Err(e) => Err(e@),
        Ok((h, p)) => Ok(
            (
                match h {
                    Some(x) => Some(x@),
                    None => None,
                },
                p,
            ),
        ),
    }
}

/// The host and port to connect to for `url_str`, from what parsing it
/// gave (see [`url_target_spec`]); errors are `Other`.
pub fn url_target_from(url_str: &str, parsed: Result<(Option<String>, Option<u16>), String>) -> (r:
    Result<(String, u16), TlsError>)
    ensures
        match url_target_spec(url_str@, parsed_url_view(parsed)) {
            Ok((h, p)) => r matches Ok((host, port)) && host@ == h && port == p,
            Err(m) => r matches Err(TlsError::Other(e)) && e@ == m,
        },
{
    match parsed {
        Err(e) => {
            let mut msg = owned("Failed to parse URL '");
            push_str(&mut msg, url_str);
            push_str(&mut msg, "': ");
            push_str(&mut msg, e.as_str());
            Err(TlsError::Other(msg))
        },
        Ok((None, _)) => Err(TlsError::Other(owned("URL must include a host"))),
        Ok((Some(h), p)) => {
            let port = match p {
                Some(n) => n,
                None => 443,
            };
            Ok((h, port))
        },
    }
}

/// The host and port to connect to for `url_str`: parses it with `url`
/// and applies [`url_target_from`].
pub fn url_target(url_str: &str) -> (r: Result<(String, u16), TlsError>)
    ensures
        match url_parse_error(url_str@) {
            Some(e) => r matches Err(TlsError::Other(m)) && m@ == "Failed to parse URL '"@
                + url_str@ + "': "@ + e,
            None => match url_host(url_str@) {
                None => r matches Err(TlsError::Other(m)) && m@ == "URL must include a host"@,
                Some(h) => r matches Ok((host, port)) && host@ == h && port == match url_port(
                    url_str@,
                ) {
                    Some(n) => n,
                    None => 443u16,
                },
            },
        },
{
    let parsed = parse_url(url_str);
    url_target_from(url_str, parsed)
}

/// The name of the JSON file for one host's report, stamped with `stamp`.
pub fn report_file_name(host: &str, stamp: &str) -> (r: String)
    ensures
        r@ == "tls_"@ + host@ + "_"@ + stamp@ + ".json"@,
{
    let mut s = owned("tls_");
    push_str(&mut s, host);
    push_str(&mut s, "_");
    push_str(&mut s, stamp);
    push_str(&mut s, ".json");
    s
}

/// The name of the JSON file comparing all reports, stamped with `stamp`.
pub fn comparison_file_name(stamp: &str) -> (r: String)
    ensures
        r@ == "tls_comparison_"@ + stamp@ + ".json"@,
{
    let mut s = owned("tls_comparison_");
    push_str(&mut s, stamp);
    push_str(&mut s, ".json");
    s
}

} // verus!
