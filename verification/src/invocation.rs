//! What the command line decides before and around an audit: the command
//! to run, the output format, the audit target, the progress total, the
//! count of active repositories, and the plain-text bodies of error,
//! information and self-update messages.
use vstd::prelude::*;

use crate::checks::repo_context::RepoContext;
use crate::support::panel::is_white;
use crate::text::{starts_with, to_chars};

verus! {

/// How results are written.
#[derive(Clone, Copy, Debug, PartialEq, Eq, Structural)]
pub enum Format {
    Pretty,
    Json,
    Markdown,
}

/// The format a `--format` value names.
pub open spec fn format_named(value: Seq<char>) -> Option<Format> {
    if value == "json"@ {
        Some(Format::Json)
    } else if value == "markdown"@ {
        Some(Format::Markdown)
    } else if value == "pretty"@ {
        Some(Format::Pretty)
    } else {
        None
    }
}

pub fn parse_format(value: &str) -> (f: Option<Format>)
    ensures
        f == format_named(value@),
{
    if crate::text::str_eq(value, "json") {
        Some(Format::Json)
    } else if crate::text::str_eq(value, "markdown") {
        Some(Format::Markdown)
    } else if crate::text::str_eq(value, "pretty") {
        Some(Format::Pretty)
    } else {
        None
    }
}

/// The format asked for by the first `--format=VALUE` or `--format VALUE`
/// among the arguments (the program name left out), read when the rest of
/// the command line could not be parsed; an unknown value names none.
pub open spec fn sniffed_format(args: Seq<Seq<char>>) -> Option<Format>
    decreases args.len(),
{
    if args.len() == 0 {
        None
    } else if "--format="@.is_prefix_of(args[0]) {
        format_named(args[0].skip(9))
    } else if args[0] == "--format"@ {
        if args.len() > 1 {
            format_named(args[1])
        } else {
            None
        }
    } else {
        sniffed_format(args.drop_first())
    }
}

pub fn sniff_format(args: &[String]) -> (f: Option<Format>)
    ensures
        f == sniffed_format(args@.map_values(|a: String| a@)),
{
    let ghost all = args@.map_values(|a: String| a@);
    let mut i: usize = 0;
    assert(all.skip(0) =~= all);
    proof {
        reveal_strlit("--format=");
    }
    while i < args.len()
        invariant
            i <= args@.len(),
            all == args@.map_values(|a: String| a@),
            sniffed_format(all) == sniffed_format(all.skip(i as int)),
            "--format="@.len() == 9,
        decreases args@.len() - i,
    {
        let ghost rest = all.skip(i as int);
        assert(rest[0] == args@[i as int]@);
        assert(rest.drop_first() =~= all.skip(i + 1));
        let arg = args[i].as_str();
        if starts_with(arg, "--format=") {
            let n = arg.unicode_len();
            let value = arg.substring_char(9, n);
            return parse_format(value);
        }
        if crate::text::str_eq(arg, "--format") {
            if i + 1 < args.len() {
                assert(rest[1] == args@[i + 1]@);
                return parse_format(args[i + 1].as_str());
            }
            return None;
        }
        i += 1;
    }
    None
}

/// Which repositories of an account are audited.
#[derive(Clone, Copy, Debug, PartialEq, Eq, Structural)]
pub enum Visibility {
    All,
    Public,
    Private,
}

/// `--public` wins over `--private`; with neither every repository counts.
pub fn visibility(public: bool, private: bool) -> (v: Visibility)
    ensures
        v == (if public {
            Visibility::Public
        } else if private {
            Visibility::Private
        } else {
            Visibility::All
        }),
{
    if public {
        Visibility::Public
    } else if private {
        Visibility::Private
    } else {
        Visibility::All
    }
}

/// What one run of moat does.
#[derive(Clone, Copy, Debug, PartialEq, Eq, Structural)]
pub enum Command {
    /// Print the usage text.
    Help,
    /// Print the version.
    Version,
    /// Replace the binary with the latest release.
    SelfUpdate,
    /// Audit the account or repository that was named.
    Audit,
}

/// The command a parsed command line runs: `--help`, or no account and
/// neither `--self-update` nor `--version`, shows the usage; then
/// `--version` wins over `--self-update`, which wins over an audit.
pub fn command_of(help: bool, has_account: bool, self_update: bool, version: bool) -> (c: Command)
    ensures
        c == (if help || (!has_account && !self_update && !version) {
            Command::Help
        } else if version {
            Command::Version
        } else if self_update {
            Command::SelfUpdate
        } else {
            Command::Audit
        }),
{
    if help || (!has_account && !self_update && !version) {
        Command::Help
    } else if version {
        Command::Version
    } else if self_update {
        Command::SelfUpdate
    } else {
        Command::Audit
    }
}

/// How an attempt to replace the binary with the latest release ended.
#[derive(Clone, Debug)]
pub enum SelfUpdateOutcome {
    /// Replaced by the release with this version.
    Updated(String),
    /// The running binary is the latest release.
    UpToDate,
    /// A package manager owns the binary; a newer release exists.
    ManagedExternally { manager: String, latest: String },
    /// The update could not be made, for this reason.
    Failed(String),
}

/// The message that reports a self-update; versions are shown without
/// their leading `v`s.
pub open spec fn self_update_text(o: SelfUpdateOutcome) -> Seq<char> {
    match o {
        SelfUpdateOutcome::Updated(v) => "Moat updated to v"@ + strip_leading(v@, "v"@) + "."@,
        SelfUpdateOutcome::UpToDate => "Moat is already up to date."@,
        SelfUpdateOutcome::ManagedExternally { manager, latest } => "Moat v"@ + strip_leading(
            latest@,
            "v"@,
        ) + " is available. This binary is managed by "@ + manager@
            + "; run `brew update && brew upgrade moat` to update."@,
        SelfUpdateOutcome::Failed(e) => "Self-update failed: "@ + e@,
    }
}

/// The message that reports a self-update, as `self_update_text` says.
pub fn self_update_message(outcome: &SelfUpdateOutcome) -> (m: String)
    ensures
        m@ == self_update_text(*outcome),
{
    proof {
        reveal_strlit("v");
    }
    let mut m = String::new();
    match outcome {
        SelfUpdateOutcome::Updated(v) => {
            m.append("Moat updated to v");
            m.append(strip_leading_copies(v.as_str(), "v"));
            m.append(".");
        },
        SelfUpdateOutcome::UpToDate => {
            m.append("Moat is already up to date.");
        },
        SelfUpdateOutcome::ManagedExternally { manager, latest } => {
            m.append("Moat v");
            m.append(strip_leading_copies(latest.as_str(), "v"));
            m.append(" is available. This binary is managed by ");
            m.append(manager.as_str());
            m.append("; run `brew update && brew upgrade moat` to update.");
        },
        SelfUpdateOutcome::Failed(e) => {
            m.append("Self-update failed: ");
            m.append(e.as_str());
        },
    }
    m
}

/// How many of the audited repositories are not archived.
pub open spec fn active_repos(repos: Seq<RepoContext>) -> nat
    decreases repos.len(),
{
    if repos.len() == 0 {
        0
    } else {
        active_repos(repos.drop_last()) + if repos.last().archived {
            0nat
        } else {
            1nat
        }
    }
}

/// The number of repositories that are not archived, which the summary of
/// an audit reports as its total.
pub fn active_repo_count(contexts: &[RepoContext]) -> (n: usize)
    ensures
        n == active_repos(contexts@),
{
    let mut n: usize = 0;
    let mut i: usize = 0;
    while i < contexts.len()
        invariant
            i <= contexts@.len(),
            n == active_repos(contexts@.take(i as int)),
            n <= i,
        decreases contexts@.len() - i,
    {
        assert(contexts@.take(i + 1).drop_last() =~= contexts@.take(i as int));
        if !contexts[i].archived {
            n = n + 1;
        }
        i = i + 1;
    }
    assert(contexts@.take(i as int) =~= contexts@);
    n
}

/// What is audited: one repository, or an account (organization or user).
pub enum Target {
    Repo { owner: String, repo: String },
    Account(String),
}

/// The position of the first `/` in `s`, if any.
pub open spec fn first_slash(s: Seq<char>) -> Option<int>
    decreases s.len(),
{
    if s.len() == 0 {
        None
    } else if s[0] == '/' {
        Some(0)
    } else {
        match first_slash(s.drop_first()) {
            Some(i) => Some(i + 1),
            None => None,
        }
    }
}

proof fn lemma_first_slash(s: Seq<char>)
    ensures
        first_slash(s) matches Some(i) ==> 0 <= i < s.len() && s[i] == '/' && forall|j: int|
            0 <= j < i ==> s[j] != '/',
        first_slash(s) is None ==> !s.contains('/'),
    decreases s.len(),
{
    if s.len() > 0 {
        let t = s.drop_first();
        lemma_first_slash(t);
        if s[0] != '/' {
            match first_slash(t) {
                Some(i) => {
                    assert(s[i + 1] == t[i]);
                    assert forall|j: int| 0 <= j < i + 1 implies s[j] != '/' by {
                        if j > 0 {
                            assert(s[j] == t[j - 1]);
                        }
                    }
                },
                None => {
                    if s.contains('/') {
                        let k = choose|k: int| 0 <= k < s.len() && s[k] == '/';
                        assert(t[k - 1] == '/');
                    }
                },
            }
        }
    }
}

proof fn lemma_first_slash_at(s: Seq<char>, i: int)
    requires
        0 <= i < s.len(),
        s[i] == '/',
        forall|j: int| 0 <= j < i ==> s[j] != '/',
    ensures
        first_slash(s) == Some(i),
    decreases s.len(),
{
    if i > 0 {
        let t = s.drop_first();
        assert forall|j: int| 0 <= j < i - 1 implies t[j] != '/' by {
            assert(t[j] == s[j + 1]);
        }
        lemma_first_slash_at(t, i - 1);
    }
}

/// The error for an `owner/repo` target with a part missing or too many parts.
pub open spec fn invalid_target_message(account: Seq<char>) -> Seq<char> {
    "Invalid target `"@ + account + "` — expected `owner/repo` or `account`."@
}

/// The error for `--public` or `--private` with a single repository.
pub open spec fn filter_on_repo_message() -> Seq<char> {
    "`--public` and `--private` filter the repositories of an account or organization; they can't be used when auditing a single `owner/repo`."@
}

/// The target named on the command line: `owner/repo` (split at the first
/// `/`; both parts non-empty and no further `/`) is one repository, where the
/// visibility filters make no sense; anything without a `/` is an account.
pub open spec fn target_of(account: Seq<char>, public: bool, private: bool) -> Result<
    (Seq<char>, Option<Seq<char>>),
    Seq<char>,
> {
    match first_slash(account) {
        None => Ok((account, None)),
        Some(i) => {
            let owner = account.take(i);
            let repo = account.skip(i + 1);
            if owner.len() == 0 || repo.len() == 0 || repo.contains('/') {
                Err(invalid_target_message(account))
            } else if public || private {
                Err(filter_on_repo_message())
            } else {
                Ok((owner, Some(repo)))
            }
        },
    }
}

/// The target as its account (or owner) and its repository, if one.
pub open spec fn target_view(t: Target) -> (Seq<char>, Option<Seq<char>>) {
    match t {
        Target::Repo { owner, repo } => (owner@, Some(repo@)),
        Target::Account(a) => (a@, None),
    }
}

pub fn parse_target(account: &str, public: bool, private: bool) -> (r: Result<Target, String>)
    ensures
        match r {
            Ok(t) => target_of(account@, public, private) == Ok::<
                (Seq<char>, Option<Seq<char>>),
                Seq<char>,
            >(target_view(t)),
            Err(m) => target_of(account@, public, private) == Err::<
                (Seq<char>, Option<Seq<char>>),
                Seq<char>,
            >(m@),
        },
{
    let cs = to_chars(account);
    let n = cs.len();
    let mut i: usize = 0;
    while i < n && cs[i] != '/'
        invariant
            i <= n,
            n == account@.len(),
            cs@ == account@,
            forall|j: int| 0 <= j < i ==> account@[j] != '/',
        decreases n - i,
    {
        i += 1;
    }
    if i == n {
        proof {
            lemma_first_slash(account@);
            if let Some(k) = first_slash(account@) {
                assert(account@[k] != '/');
            }
        }
        return Ok(Target::Account(account.to_owned()));
    }
    proof {
        lemma_first_slash_at(account@, i as int);
    }
    let owner = account.substring_char(0, i);
    let repo = account.substring_char(i + 1, n);
    assert(owner@ =~= account@.take(i as int));
    assert(repo@ =~= account@.skip(i + 1));
    let mut extra_slash = false;
    let mut j: usize = i + 1;
    while j < n
        invariant
            i < n,
            i + 1 <= j <= n,
            n == account@.len(),
            cs@ == account@,
            repo@ == account@.skip(i + 1),
            extra_slash == exists|k: int| i + 1 <= k < j && account@[k] == '/',
        decreases n - j,
    {
        if cs[j] == '/' {
            extra_slash = true;
        }
        j += 1;
    }
    proof {
        if extra_slash {
            let k = choose|k: int| i + 1 <= k < n && account@[k] == '/';
            assert(repo@[k - i - 1] == '/');
        }
        if repo@.contains('/') {
            let k = choose|k: int| 0 <= k < repo@.len() && repo@[k] == '/';
            assert(account@[k + i + 1] == '/');
        }
    }
    if i == 0 || i + 1 == n || extra_slash {
        let mut m = String::new();
        m.append("Invalid target `");
        m.append(account);
        m.append("` — expected `owner/repo` or `account`.");
        return Err(m);
    }
    if public || private {
        return Err(
            "`--public` and `--private` filter the repositories of an account or organization; they can't be used when auditing a single `owner/repo`.".to_owned(),
        );
    }
    Ok(Target::Repo { owner: owner.to_owned(), repo: repo.to_owned() })
}

/// The progress total of a single-repository audit: one tick for the
/// account lookup and `repo_ticks` for the repository.
pub fn repo_progress_total(repo_ticks: usize) -> (n: usize)
    requires
        repo_ticks < usize::MAX,
    ensures
        n == 1 + repo_ticks,
{
    1 + repo_ticks
}

/// The progress total of an account audit: one tick for the account lookup,
/// `repo_ticks` per repository, and `org_ticks` more for an organization.
pub fn account_progress_total(repo_ticks: usize, repos: usize, org_ticks: usize, is_org: bool) -> (n:
    usize)
    requires
        1 + repo_ticks * repos + org_ticks <= usize::MAX,
    ensures
        n == 1 + repo_ticks * repos + (if is_org {
            org_ticks as int
        } else {
            0
        }),
{
    assert(repo_ticks * repos <= usize::MAX) by (nonlinear_arith)
        requires
            1 + repo_ticks * repos + org_ticks <= usize::MAX,
    ;
    let mut total = 1 + repo_ticks * repos;
    if is_org {
        total = total + org_ticks;
    }
    total
}

/// `l` without one trailing carriage return.
pub open spec fn strip_cr(l: Seq<char>) -> Seq<char> {
    if l.len() > 0 && l.last() == '\r' {
        l.drop_last()
    } else {
        l
    }
}

/// Reading `s` from the left: the lines ended so far and the line in progress.
pub open spec fn line_scan(s: Seq<char>) -> (Seq<Seq<char>>, Seq<char>)
    decreases s.len(),
{
    if s.len() == 0 {
        (Seq::empty(), Seq::empty())
    } else {
        let (ls, cur) = line_scan(s.drop_last());
        if s.last() == '\n' {
            (ls.push(strip_cr(cur)), Seq::empty())
        } else {
            (ls, cur.push(s.last()))
        }
    }
}

/// The lines of `s` (`str::lines`): split at `\n`, a `\r` before it dropped,
/// and no empty last line for a text that ends with a line break.
pub open spec fn text_lines(s: Seq<char>) -> Seq<Seq<char>> {
    let (ls, cur) = line_scan(s);
    if cur.len() == 0 {
        ls
    } else {
        ls.push(cur)
    }
}

fn split_lines(raw: &str) -> (ls: Vec<String>)
    ensures
        crate::text::views(ls@) == text_lines(raw@),
{
    let cs = to_chars(raw);
    let n = cs.len();
    let mut ls: Vec<String> = Vec::new();
    let mut start: usize = 0;
    let mut i: usize = 0;
    while i < n
        invariant
            cs@ == raw@,
            n == raw@.len(),
            start <= i <= n,
            crate::text::views(ls@) == line_scan(raw@.take(i as int)).0,
            line_scan(raw@.take(i as int)).1 == raw@.subrange(start as int, i as int),
        decreases n - i,
    {
        assert(raw@.take(i + 1).drop_last() =~= raw@.take(i as int));
        assert(raw@.take(i + 1).last() == cs@[i as int]);
        if cs[i] == '\n' {
            let ghost cur = raw@.subrange(start as int, i as int);
            let end: usize = if i > start && cs[i - 1] == '\r' {
                i - 1
            } else {
                i
            };
            assert(raw@.subrange(start as int, end as int) =~= strip_cr(cur));
            let line = raw.substring_char(start, end).to_owned();
            let ghost before = ls@;
            ls.push(line);
            assert(crate::text::views(ls@) =~= crate::text::views(before).push(strip_cr(cur)));
            start = i + 1;
        } else {
            assert(raw@.subrange(start as int, i + 1) =~= raw@.subrange(start as int, i as int).push(
                cs@[i as int],
            ));
        }
        i += 1;
        assert(raw@.subrange(start as int, i as int).len() == i - start);
    }
    assert(raw@.take(n as int) =~= raw@);
    if start < n {
        let line = raw.substring_char(start, n).to_owned();
        let ghost before = ls@;
        ls.push(line);
        assert(crate::text::views(ls@) =~= crate::text::views(before).push(
            raw@.subrange(start as int, n as int),
        ));
    } else {
        assert(raw@.subrange(start as int, n as int) =~= Seq::<char>::empty());
    }
    ls
}

/// `s` with every leading copy of `p` removed (`str::trim_start_matches`).
pub open spec fn strip_leading(s: Seq<char>, p: Seq<char>) -> Seq<char>
    decreases s.len(),
{
    if p.len() > 0 && p.is_prefix_of(s) {
        strip_leading(s.skip(p.len() as int), p)
    } else {
        s
    }
}

/// Nothing but whitespace (what `trim` leaves empty).
pub open spec fn is_blank(l: Seq<char>) -> bool {
    forall|k: int| 0 <= k < l.len() ==> is_white(#[trigger] l[k])
}

/// A line of an error message: blank, or text.
pub enum ErrorLine {
    Blank,
    Text(String),
}

pub enum ErrorLineView {
    Blank,
    Text(Seq<char>),
}

pub open spec fn error_line_view(l: ErrorLine) -> ErrorLineView {
    match l {
        ErrorLine::Blank => ErrorLineView::Blank,
        ErrorLine::Text(t) => ErrorLineView::Text(t@),
    }
}

/// A line as shown: blank when only whitespace, else its text.
pub open spec fn shown_line(l: Seq<char>) -> ErrorLineView {
    if is_blank(l) {
        ErrorLineView::Blank
    } else {
        ErrorLineView::Text(l)
    }
}

/// `lines` without the blank lines at its end.
pub open spec fn drop_trailing_blanks(lines: Seq<ErrorLineView>) -> Seq<ErrorLineView>
    decreases lines.len(),
{
    if lines.len() > 0 && lines.last() is Blank {
        drop_trailing_blanks(lines.drop_last())
    } else {
        lines
    }
}

/// The lines of a command-line parse error as shown in an error panel: the
/// `error: ` that starts it dropped, whitespace-only lines blank, and no
/// blank lines at the end.
pub open spec fn parse_error_lines(raw: Seq<char>) -> Seq<ErrorLineView> {
    let ls = text_lines(raw);
    drop_trailing_blanks(
        Seq::new(
            ls.len(),
            |k: int|
                shown_line(
                    if k == 0 {
                        strip_leading(ls[0], "error: "@)
                    } else {
                        ls[k]
                    },
                ),
        ),
    )
}

fn blank(s: &str) -> (b: bool)
    ensures
        b == is_blank(s@),
{
    let cs = to_chars(s);
    let mut k: usize = 0;
    while k < cs.len()
        invariant
            cs@ == s@,
            k <= cs@.len(),
            forall|j: int| 0 <= j < k ==> is_white(#[trigger] s@[j]),
        decreases cs@.len() - k,
    {
        if !crate::support::panel::is_whitespace(cs[k]) {
            return false;
        }
        k += 1;
    }
    true
}

/// `s` with every leading copy of `p` removed.
fn strip_leading_copies<'a>(s: &'a str, p: &str) -> (r: &'a str)
    requires
        p@.len() > 0,
    ensures
        r@ == strip_leading(s@, p@),
{
    let n = s.unicode_len();
    let m = p.unicode_len();
    let mut pos: usize = 0;
    assert(s@.skip(0) =~= s@);
    while n - pos >= m && starts_with(s.substring_char(pos, n), p)
        invariant
            pos <= n,
            n == s@.len(),
            m == p@.len(),
            m > 0,
            strip_leading(s@, p@) == strip_leading(s@.skip(pos as int), p@),
        decreases n - pos,
    {
        assert(s@.subrange(pos as int, n as int) =~= s@.skip(pos as int));
        assert(s@.skip(pos as int).skip(m as int) =~= s@.skip(pos + m));
        pos = pos + m;
    }
    let r = s.substring_char(pos, n);
    assert(r@ =~= s@.skip(pos as int));
    proof {
        if n - pos < m {
            assert(!p@.is_prefix_of(s@.skip(pos as int)));
        } else {
            assert(s@.subrange(pos as int, n as int) =~= s@.skip(pos as int));
        }
    }
    r
}

/// The lines of a command-line parse error, as `parse_error_lines` says.
pub fn error_lines(raw: &str) -> (out: Vec<ErrorLine>)
    ensures
        out@.map_values(|l: ErrorLine| error_line_view(l)) == parse_error_lines(raw@),
{
    let ls = split_lines(raw);
    let ghost lsv = text_lines(raw@);
    let ghost shown = Seq::new(
        lsv.len(),
        |k: int|
            shown_line(
                if k == 0 {
                    strip_leading(lsv[0], "error: "@)
                } else {
                    lsv[k]
                },
            ),
    );
    let mut out: Vec<ErrorLine> = Vec::new();
    let mut k: usize = 0;
    while k < ls.len()
        invariant
            crate::text::views(ls@) == lsv,
            lsv == text_lines(raw@),
            shown.len() == lsv.len(),
            forall|j: int| 0 <= j < lsv.len() ==> #[trigger] shown[j] == shown_line(
                if j == 0 {
                    strip_leading(lsv[0], "error: "@)
                } else {
                    lsv[j]
                },
            ),
            k <= ls@.len(),
            out@.map_values(|l: ErrorLine| error_line_view(l)) == shown.take(k as int),
        decreases ls@.len() - k,
    {
        let line: &str = if k == 0 {
            proof {
                reveal_strlit("error: ");
            }
            strip_leading_copies(ls[0].as_str(), "error: ")
        } else {
            ls[k].as_str()
        };
        assert(lsv[k as int] == ls@[k as int]@);
        let item = if blank(line) {
            ErrorLine::Blank
        } else {
            ErrorLine::Text(line.to_owned())
        };
        let ghost before = out@;
        out.push(item);
        assert(out@.map_values(|l: ErrorLine| error_line_view(l)) =~= before.map_values(
            |l: ErrorLine| error_line_view(l),
        ).push(shown[k as int]));
        assert(shown.take(k + 1) =~= shown.take(k as int).push(shown[k as int]));
        k += 1;
    }
    assert(shown.take(ls@.len() as int) =~= shown);
    assert(shown =~= Seq::new(
        text_lines(raw@).len(),
        |k: int|
            shown_line(
                if k == 0 {
                    strip_leading(text_lines(raw@)[0], "error: "@)
                } else {
                    text_lines(raw@)[k]
                },
            ),
    ));
    assert(parse_error_lines(raw@) == drop_trailing_blanks(shown));
    loop
        invariant
            drop_trailing_blanks(out@.map_values(|l: ErrorLine| error_line_view(l)))
                == drop_trailing_blanks(shown),
            parse_error_lines(raw@) == drop_trailing_blanks(shown),
        ensures
            out@.map_values(|l: ErrorLine| error_line_view(l)) == drop_trailing_blanks(shown),
        decreases out@.len(),
    {
        let ghost v = out@.map_values(|l: ErrorLine| error_line_view(l));
        if out.len() == 0 {
            return out;
        }
        let last_blank = match &out[out.len() - 1] {
            ErrorLine::Blank => true,
            ErrorLine::Text(_) => false,
        };
        assert(v.last() == error_line_view(out@[out@.len() - 1]));
        if !last_blank {
            return out;
        }
        out.pop();
        assert(out@.map_values(|l: ErrorLine| error_line_view(l)) =~= v.drop_last());
    }
}

/// `s` without trailing whitespace (`str::trim_end`).
pub open spec fn trim_end(s: Seq<char>) -> Seq<char>
    decreases s.len(),
{
    if s.len() > 0 && is_white(s.last()) {
        trim_end(s.drop_last())
    } else {
        s
    }
}

fn trimmed_end(s: &str) -> (r: &str)
    ensures
        r@ == trim_end(s@),
{
    let cs = to_chars(s);
    let mut n = cs.len();
    assert(s@.take(n as int) =~= s@);
    while n > 0 && crate::support::panel::is_whitespace(cs[n - 1])
        invariant
            cs@ == s@,
            n <= cs@.len(),
            trim_end(s@) == trim_end(s@.take(n as int)),
        decreases n,
    {
        assert(s@.take(n as int).drop_last() =~= s@.take(n - 1));
        n -= 1;
    }
    let r = s.substring_char(0, n);
    assert(r@ =~= s@.take(n as int));
    r
}

/// An error as Markdown: a heading with its title, then its body without
/// trailing whitespace.
pub fn error_markdown(title: &str, body: &str) -> (out: String)
    ensures
        out@ == "# "@ + title@ + "\n\n"@ + trim_end(body@) + "\n"@,
{
    let mut out = String::new();
    out.append("# ");
    out.append(title);
    out.append("\n\n");
    out.append(trimmed_end(body));
    out.append("\n");
    out
}

/// An information message as Markdown: a heading with its title, then the
/// body; help text goes in a code block, without trailing whitespace.
pub fn info_markdown(title: &str, kind: &str, body: &str) -> (out: String)
    ensures
        out@ == "# "@ + title@ + "\n\n"@ + (if kind@ == "help"@ {
            "```\n"@ + trim_end(body@) + "\n```\n"@
        } else {
            body@ + "\n"@
        }),
{
    let mut out = String::new();
    out.append("# ");
    out.append(title);
    out.append("\n\n");
    if crate::text::str_eq(kind, "help") {
        out.append("```\n");
        out.append(trimmed_end(body));
        out.append("\n```\n");
    } else {
        out.append(body);
        out.append("\n");
    }
    out
}

/// A target names either an account without any `/`, or one repository as
/// a non-empty owner and a non-empty name, neither holding a `/`, that are
/// joined by `/` in what was typed.
pub proof fn targets_split_at_the_slash(account: Seq<char>, public: bool, private: bool)
    ensures
        target_of(account, public, private) matches Ok((a, None)) ==> a == account
            && !account.contains('/'),
        target_of(account, public, private) matches Ok((owner, Some(repo))) ==> {
            &&& owner + "/"@ + repo == account
            &&& owner.len() > 0 && repo.len() > 0
            &&& !owner.contains('/') && !repo.contains('/')
        },
{
    reveal_strlit("/");
    lemma_first_slash(account);
    match first_slash(account) {
        None => {},
        Some(i) => {
            let owner = account.take(i);
            let repo = account.skip(i + 1);
            assert(owner + "/"@ + repo =~= account);
            if owner.contains('/') {
                let k = choose|k: int| 0 <= k < owner.len() && owner[k] == '/';
                assert(account[k] == '/');
            }
        },
    }
}

/// `--format=VALUE` and `--format VALUE` ask for the same format.
pub proof fn format_flag_forms_agree(value: Seq<char>)
    ensures
        sniffed_format(seq!["--format="@ + value]) == sniffed_format(seq!["--format"@, value]),
{
    reveal_strlit("--format=");
    reveal_strlit("--format");
    let joined = "--format="@ + value;
    assert("--format="@.is_prefix_of(joined)) by {
        assert(joined.subrange(0, 9) =~= "--format="@);
    }
    assert(joined.skip(9) =~= value);
    assert(seq!["--format"@, value][0] == "--format"@);
    assert(!"--format="@.is_prefix_of("--format"@));
}

proof fn lemma_drop_trailing_blanks_ends(lines: Seq<ErrorLineView>)
    ensures
        drop_trailing_blanks(lines).len() > 0 ==> !(drop_trailing_blanks(lines).last() is Blank),
    decreases lines.len(),
{
    if lines.len() > 0 && lines.last() is Blank {
        lemma_drop_trailing_blanks_ends(lines.drop_last());
    }
}

/// A parse error shown in a panel never ends with a blank line.
pub proof fn parse_error_lines_end_in_text(raw: Seq<char>)
    ensures
        parse_error_lines(raw).len() > 0 ==> parse_error_lines(raw).last() is Text,
{
    let ls = text_lines(raw);
    lemma_drop_trailing_blanks_ends(
        Seq::new(
            ls.len(),
            |k: int|
                shown_line(
                    if k == 0 {
                        strip_leading(ls[0], "error: "@)
                    } else {
                        ls[k]
                    },
                ),
        ),
    );
}

} // verus!
