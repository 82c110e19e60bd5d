//! Driving the stock Moonlight Qt binary through its CLI.

use vstd::prelude::*;
use crate::client_config::{join_path, joined_path};
use crate::text::{cat2, chars, clone_texts, is_empty, str_view, texts, trim, trimmed};

verus! {

/// The systems that are told apart.
#[derive(Debug, Clone, Copy, PartialEq, Eq, Structural)]
pub enum Platform {
    Macos,
    Linux,
    Windows,
    Other,
}

/// A place where the binary may be.
#[derive(Debug)]
pub struct Candidate {
    pub path: String,
    /// Whether it counts only if it is a plain file.
    pub plain_file: bool,
}

/// What a [`Candidate`] holds.
#[verifier::ext_equal]
pub struct CandidateView {
    pub path: Seq<char>,
    pub plain_file: bool,
}

impl View for Candidate {
    type V = CandidateView;

    open spec fn view(&self) -> CandidateView {
        CandidateView { path: self.path@, plain_file: self.plain_file }
    }
}

/// What a list of candidates holds.
pub open spec fn candidate_views(v: Seq<Candidate>) -> Seq<CandidateView> {
    Seq::new(v.len(), |i: int| v[i]@)
}

/// A path that counts whatever is there.
pub open spec fn anything_at(path: Seq<char>) -> CandidateView {
    CandidateView { path, plain_file: false }
}

/// A path that counts only if a plain file is there.
pub open spec fn file_at(path: Seq<char>) -> CandidateView {
    CandidateView { path, plain_file: true }
}

/// Where installers put the binary.
pub open spec fn installed_paths(platform: Platform) -> Seq<CandidateView> {
    match platform {
        Platform::Macos => seq![
            anything_at("/Applications/Moonlight.app/Contents/MacOS/Moonlight"@),
            anything_at("/opt/homebrew/bin/moonlight"@),
            anything_at("/usr/local/bin/moonlight"@),
        ],
        Platform::Windows => seq![
            anything_at("C:\\Program Files\\Moonlight Game Streaming\\Moonlight.exe"@),
            anything_at("C:\\Program Files (x86)\\Moonlight Game Streaming\\Moonlight.exe"@),
        ],
        _ => seq![
            anything_at("/usr/bin/moonlight-qt"@),
            anything_at("/usr/bin/moonlight"@),
            anything_at("/usr/local/bin/moonlight"@),
            anything_at("/var/lib/flatpak/exports/bin/com.moonlight_stream.Moonlight"@),
        ],
    }
}

/// Where the binary is looked for in the directories of the search path.
pub open spec fn search_paths(dirs: Seq<Seq<char>>, separator: char) -> Seq<CandidateView>
    decreases dirs.len(),
{
    if dirs.len() == 0 {
        Seq::empty()
    } else {
        let d = dirs.last();
        search_paths(dirs.drop_last(), separator) + seq![
            file_at(joined_path(d, separator, "moonlight"@)),
            file_at(joined_path(d, separator, "moonlight-qt"@)),
            file_at(joined_path(d, separator, "Moonlight.exe"@)),
        ]
    }
}

/// A path, where there is one.
pub open spec fn optional_path(p: Option<Seq<char>>) -> Seq<CandidateView> {
    match p {
        Some(path) => seq![anything_at(path)],
        None => Seq::empty(),
    }
}

/// All places where the binary may be: first the configured one, then that of the
/// environment, then where installers put it, then the search path.
pub open spec fn candidates_of(
    platform: Platform,
    configured: Option<Seq<char>>,
    env_bin: Option<Seq<char>>,
    dirs: Seq<Seq<char>>,
    separator: char,
) -> Seq<CandidateView> {
    optional_path(configured) + optional_path(env_bin) + installed_paths(platform) + search_paths(
        dirs,
        separator,
    )
}

/// Appends a place.
fn push_candidate(v: &mut Vec<Candidate>, path: String, plain_file: bool)
    ensures
        candidate_views(final(v)@) == candidate_views(old(v)@).push(
            CandidateView { path: path@, plain_file },
        ),
{
    let ghost before = candidate_views(v@);
    let ghost c = CandidateView { path: path@, plain_file };
    v.push(Candidate { path, plain_file });
    assert(candidate_views(v@) =~= before.push(c));
}

/// All places where the binary may be, in the order in which they count.
pub fn moonlight_candidates(
    platform: Platform,
    configured: Option<&str>,
    env_bin: Option<&str>,
    dirs: &Vec<String>,
    separator: char,
) -> (r: Vec<Candidate>)
    ensures
        candidate_views(r@) == candidates_of(
            platform,
            str_view(configured),
            str_view(env_bin),
            texts(dirs@),
            separator,
        ),
{
    let mut v: Vec<Candidate> = Vec::new();
    assert(candidate_views(v@) =~= Seq::empty());
    if let Some(p) = configured {
        push_candidate(&mut v, p.to_owned(), false);
    }
    assert(candidate_views(v@) =~= optional_path(str_view(configured)));
    if let Some(p) = env_bin {
        push_candidate(&mut v, p.to_owned(), false);
    }
    let ghost given = optional_path(str_view(configured)) + optional_path(str_view(env_bin));
    assert(candidate_views(v@) =~= given);
    match platform {
        Platform::Macos => {
            push_candidate(
                &mut v,
                "/Applications/Moonlight.app/Contents/MacOS/Moonlight".to_owned(),
                false,
            );
            push_candidate(&mut v, "/opt/homebrew/bin/moonlight".to_owned(), false);
            push_candidate(&mut v, "/usr/local/bin/moonlight".to_owned(), false);
        },
        Platform::Windows => {
            push_candidate(
                &mut v,
                "C:\\Program Files\\Moonlight Game Streaming\\Moonlight.exe".to_owned(),
                false,
            );
            push_candidate(
                &mut v,
                "C:\\Program Files (x86)\\Moonlight Game Streaming\\Moonlight.exe".to_owned(),
                false,
            );
        },
        _ => {
            push_candidate(&mut v, "/usr/bin/moonlight-qt".to_owned(), false);
            push_candidate(&mut v, "/usr/bin/moonlight".to_owned(), false);
            push_candidate(&mut v, "/usr/local/bin/moonlight".to_owned(), false);
            push_candidate(
                &mut v,
                "/var/lib/flatpak/exports/bin/com.moonlight_stream.Moonlight".to_owned(),
                false,
            );
        },
    }
    let ghost fixed = given + installed_paths(platform);
    assert(candidate_views(v@) =~= fixed);
    let ghost all = texts(dirs@);
    let mut i: usize = 0;
    assert(fixed + search_paths(all.take(0), separator) =~= fixed);
    while i < dirs.len()
        invariant
            all == texts(dirs@),
            i <= dirs@.len(),
            candidate_views(v@) == fixed + search_paths(all.take(i as int), separator),
        decreases dirs.len() - i,
    {
        let d = dirs[i].as_str();
        push_candidate(&mut v, join_path(d, separator, "moonlight"), true);
        push_candidate(&mut v, join_path(d, separator, "moonlight-qt"), true);
        push_candidate(&mut v, join_path(d, separator, "Moonlight.exe"), true);
        proof {
            assert(all.take(i + 1).drop_last() =~= all.take(i as int));
            assert(all.take(i + 1).last() == d@);
            assert(candidate_views(v@) =~= fixed + search_paths(all.take(i + 1), separator));
        }
        i += 1;
    }
    assert(all.take(i as int) =~= all);
    v
}

/// The first of the places at which something was found; `present` says so of each.
pub fn find_moonlight(candidates: &Vec<Candidate>, present: &Vec<bool>) -> (r: Option<String>)
    requires
        candidates@.len() == present@.len(),
    ensures
        match r {
            Some(p) => exists|i: int|
                {
                    &&& 0 <= i < present@.len()
                    &&& #[trigger] present@[i]
                    &&& p@ == candidates@[i].path@
                    &&& forall|j: int| 0 <= j < i ==> !present@[j]
                },
            None => forall|i: int| 0 <= i < present@.len() ==> !present@[i],
        },
{
    let mut i: usize = 0;
    while i < candidates.len()
        invariant
            candidates@.len() == present@.len(),
            i <= candidates@.len(),
            forall|j: int| 0 <= j < i ==> !present@[j],
        decreases candidates.len() - i,
    {
        if present[i] {
            return Some(candidates[i].path.clone());
        }
        i += 1;
    }
    None
}

pub struct Moonlight {
    bin: String,
}

impl View for Moonlight {
    type V = Seq<char>;

    closed spec fn view(&self) -> Seq<char> {
        self.bin@
    }
}

impl Moonlight {
    pub fn new(bin: String) -> (r: Self)
        ensures
            r@ == bin@,
    {
        Moonlight { bin }
    }

    pub fn path(&self) -> (r: &str)
        ensures
            r@ == self@,
    {
        self.bin.as_str()
    }

    /// Arguments of `moonlight list <host>`.
    pub fn list_args(host: &str) -> (r: Vec<String>)
        ensures
            texts(r@) == seq!["list"@, host@],
    {
        let mut v: Vec<String> = Vec::new();
        v.push("list".to_owned());
        v.push(host.to_owned());
        assert(texts(v@) =~= seq!["list"@, host@]);
        v
    }

    /// Arguments of `moonlight pair <host> --pin <pin>`.
    pub fn pair_args(host: &str, pin: &str) -> (r: Vec<String>)
        ensures
            texts(r@) == seq!["pair"@, host@, "--pin"@, pin@],
    {
        let mut v: Vec<String> = Vec::new();
        v.push("pair".to_owned());
        v.push(host.to_owned());
        v.push("--pin".to_owned());
        v.push(pin.to_owned());
        assert(texts(v@) =~= seq!["pair"@, host@, "--pin"@, pin@]);
        v
    }

    /// Arguments of `moonlight stream <host> "<app>" [args...]`.
    pub fn stream_args(host: &str, app: &str, extra: &Vec<String>) -> (r: Vec<String>)
        ensures
            texts(r@) == seq!["stream"@, host@, app@] + texts(extra@),
    {
        let mut v: Vec<String> = Vec::new();
        v.push("stream".to_owned());
        v.push(host.to_owned());
        v.push(app.to_owned());
        let mut rest = clone_texts(extra);
        v.append(&mut rest);
        assert(texts(v@) =~= seq!["stream"@, host@, app@] + texts(extra@));
        v
    }

    /// Arguments of `moonlight quit <host>`.
    pub fn quit_args(host: &str) -> (r: Vec<String>)
        ensures
            texts(r@) == seq!["quit"@, host@],
    {
        let mut v: Vec<String> = Vec::new();
        v.push("quit".to_owned());
        v.push(host.to_owned());
        assert(texts(v@) =~= seq!["quit"@, host@]);
        v
    }

    /// What `moonlight list` came to: the app titles that it printed, or its words
    /// for failing.
    pub fn list_result(success: bool, stdout: &str, stderr: &str) -> (r: Result<Vec<String>, String>)
        ensures
            match r {
                Ok(v) => success && texts(v@) == titles(stdout@),
                Err(e) => !success && e@ == "moonlight list failed: "@ + trimmed(stderr@),
            },
    {
        if !success {
            let words = trim(stderr);
            return Err(cat2("moonlight list failed: ", words.as_str()));
        }
        Ok(non_empty_lines(stdout))
    }
}

/// A trimmed line, where anything is left of it.
pub open spec fn title_of(line: Seq<char>) -> Seq<Seq<char>> {
    if trimmed(line).len() == 0 {
        Seq::empty()
    } else {
        seq![trimmed(line)]
    }
}

/// The lines of a text up to its end, `line` being what was read of the present
/// one.
pub open spec fn titles_from(line: Seq<char>, rest: Seq<char>) -> Seq<Seq<char>>
    decreases rest.len(),
{
    if rest.len() == 0 {
        title_of(line)
    } else if rest[0] == '\n' {
        title_of(line) + titles_from(Seq::empty(), rest.drop_first())
    } else {
        titles_from(line.push(rest[0]), rest.drop_first())
    }
}

/// The lines of a text, trimmed, without the empty ones.
pub open spec fn titles(s: Seq<char>) -> Seq<Seq<char>> {
    titles_from(Seq::empty(), s)
}

/// Appends a trimmed line, where anything is left of it.
fn push_title(out: &mut Vec<String>, line: &str)
    ensures
        texts(final(out)@) == texts(old(out)@) + title_of(line@),
{
    let ghost before = texts(out@);
    let t = trim(line);
    if !is_empty(t.as_str()) {
        out.push(t);
    }
    assert(texts(out@) =~= before + title_of(line@));
}

/// The lines of a text, trimmed, without the empty ones.
fn non_empty_lines(s: &str) -> (r: Vec<String>)
    ensures
        texts(r@) == titles(s@),
{
    let v = chars(s);
    let mut out: Vec<String> = Vec::new();
    let mut line = String::new();
    let mut i: usize = 0;
    proof {
        reveal_strlit("");
        assert(line@ =~= Seq::empty());
        assert(v@.skip(0) =~= v@);
        assert(texts(out@) + titles(s@) =~= titles(s@));
    }
    while i < v.len()
        invariant
            i <= v@.len(),
            v@ == s@,
            texts(out@) + titles_from(line@, v@.skip(i as int)) == titles(s@),
        decreases v.len() - i,
    {
        let c = v[i];
        let ghost rest = v@.skip(i as int);
        let ghost done = texts(out@);
        assert(rest.drop_first() =~= v@.skip(i + 1));
        assert(rest[0] == c);
        if c == '\n' {
            let ghost l = line@;
            push_title(&mut out, line.as_str());
            line = String::new();
            proof {
                reveal_strlit("");
                assert(line@ =~= Seq::empty());
                assert(texts(out@) + titles_from(Seq::empty(), v@.skip(i + 1)) =~= done + (title_of(
                    l,
                ) + titles_from(Seq::empty(), v@.skip(i + 1))));
            }
        } else {
            line.push(c);
        }
        i += 1;
    }
    push_title(&mut out, line.as_str());
    out
}

} // verus!
