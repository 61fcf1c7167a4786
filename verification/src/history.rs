use crate::text::{
    append_chars, chars_of, contains, decimal, find_char, first_index, has_infix, has_prefix,
    lemma_first_index_bounds, lines_of, optional_text, push_decimal, slice_chars, split_lines,
    starts_with, string_of, texts, trim, trim_chars, views,
};
use vstd::prelude::*;
use vstd::string::StringExecFns;

verus! {

/// The name under which the tool is invoked.
pub open spec fn tool_name() -> Seq<char> {
    "sorry"@
}

/// What opens an entry of a zsh history with time stamps.
pub open spec fn entry_marker() -> Seq<char> {
    ": "@
}

/// Whether a command is an invocation of the tool itself.
pub open spec fn is_own_invocation(cmd: Seq<char>) -> bool {
    has_prefix(trim(cmd), tool_name())
}

/// The command on one line of a bash history: the line without surrounding
/// white space, unless nothing is left.
pub open spec fn bash_line(line: Seq<char>) -> Option<Seq<char>> {
    let t = trim(line);
    if t.len() == 0 {
        None
    } else {
        Some(t)
    }
}

/// The command on one line of a zsh history. A line that opens an entry
/// holds its command after the first semicolon; with no semicolon, or with
/// nothing after it, the line holds none. Any other line is a command as it
/// stands.
pub open spec fn zsh_line(line: Seq<char>) -> Option<Seq<char>> {
    let t = trim(line);
    if t.len() == 0 {
        None
    } else if has_prefix(t, entry_marker()) {
        let i = first_index(t, ';');
        if i + 1 < t.len() {
            Some(t.subrange(i + 1, t.len() as int))
        } else {
            None
        }
    } else {
        Some(t)
    }
}

/// The commands of a bash history, one for each line that is not blank.
pub open spec fn bash_commands(lines: Seq<Seq<char>>) -> Seq<Seq<char>>
    decreases lines.len(),
{
    if lines.len() == 0 {
        Seq::empty()
    } else {
        let before = bash_commands(lines.drop_last());
        match bash_line(lines.last()) {
            Some(c) => before.push(c),
            None => before,
        }
    }
}

/// Reading one more line of a zsh history. The state is the finished
/// commands and the text of the entry that is still open (empty when none
/// is). A blank line changes nothing; a line that opens an entry closes the
/// open one; any other line continues the open entry on a new line, or
/// opens one where none is open.
pub open spec fn zsh_step(state: (Seq<Seq<char>>, Seq<char>), raw: Seq<char>) -> (
    Seq<Seq<char>>,
    Seq<char>,
) {
    let line = trim(raw);
    if line.len() == 0 {
        state
    } else if has_prefix(line, entry_marker()) {
        let done = if state.1.len() > 0 {
            state.0.push(trim(state.1))
        } else {
            state.0
        };
        let current = match zsh_line(raw) {
            Some(c) => c,
            None => Seq::empty(),
        };
        (done, current)
    } else {
        let current = if state.1.len() > 0 {
            state.1.push('\n') + line
        } else {
            line
        };
        (state.0, current)
    }
}

/// The state after reading all of `lines`.
pub open spec fn zsh_fold(lines: Seq<Seq<char>>) -> (Seq<Seq<char>>, Seq<char>)
    decreases lines.len(),
{
    if lines.len() == 0 {
        (Seq::empty(), Seq::empty())
    } else {
        zsh_step(zsh_fold(lines.drop_last()), lines.last())
    }
}

/// The commands of a zsh history.
pub open spec fn zsh_commands(lines: Seq<Seq<char>>) -> Seq<Seq<char>> {
    let state = zsh_fold(lines);
    if state.1.len() > 0 {
        state.0.push(trim(state.1))
    } else {
        state.0
    }
}

/// `cmds` without the invocations of the tool itself.
pub open spec fn without_own(cmds: Seq<Seq<char>>) -> Seq<Seq<char>>
    decreases cmds.len(),
{
    if cmds.len() == 0 {
        Seq::empty()
    } else {
        let before = without_own(cmds.drop_last());
        if is_own_invocation(cmds.last()) {
            before
        } else {
            before.push(cmds.last())
        }
    }
}

/// The last `n` of `cmds`, or all of them where there are fewer.
pub open spec fn last_n(cmds: Seq<Seq<char>>, n: nat) -> Seq<Seq<char>> {
    if cmds.len() <= n {
        cmds
    } else {
        cmds.subrange(cmds.len() - n, cmds.len() as int)
    }
}

/// The commands of a history file's text, before any is left out.
pub open spec fn recovered_commands(content: Seq<char>, is_zsh: bool) -> Seq<Seq<char>> {
    if is_zsh {
        zsh_commands(split_lines(content))
    } else {
        bash_commands(split_lines(content))
    }
}

/// No command that `without_own` keeps is an invocation of the tool.
pub proof fn lemma_without_own_excludes(cmds: Seq<Seq<char>>)
    ensures
        forall|i: int|
            0 <= i < without_own(cmds).len() ==> !is_own_invocation(
                #[trigger] without_own(cmds)[i],
            ),
    decreases cmds.len(),
{
    if cmds.len() > 0 {
        let before = without_own(cmds.drop_last());
        lemma_without_own_excludes(cmds.drop_last());
        assert forall|i: int| 0 <= i < without_own(cmds).len() implies !is_own_invocation(
            #[trigger] without_own(cmds)[i],
        ) by {
            if i < before.len() {
                assert(without_own(cmds)[i] == before[i]);
            }
        }
    }
}

fn own_invocation(cmd: &Vec<char>) -> (r: bool)
    ensures
        r == is_own_invocation(cmd@),
{
    let t = trim_chars(cmd);
    let name = chars_of("sorry");
    starts_with(&t, &name)
}

fn bash_line_chars(line: &Vec<char>) -> (r: Option<Vec<char>>)
    ensures
        r is Some == bash_line(line@) is Some,
        r is Some ==> Some(r->0@) == bash_line(line@),
{
    let t = trim_chars(line);
    if t.len() == 0 {
        None
    } else {
        Some(t)
    }
}

fn zsh_line_chars(line: &Vec<char>) -> (r: Option<Vec<char>>)
    ensures
        r is Some == zsh_line(line@) is Some,
        r is Some ==> Some(r->0@) == zsh_line(line@),
{
    let t = trim_chars(line);
    if t.len() == 0 {
        return None;
    }
    let marker = chars_of(": ");
    if starts_with(&t, &marker) {
        let i: usize = find_char(&t, ';');
        if i < t.len() && i + 1 < t.len() {
            Some(slice_chars(&t, i + 1, t.len()))
        } else {
            None
        }
    } else {
        Some(t)
    }
}

/// The command that one line of a zsh history holds, if it holds one.
pub fn parse_zsh_line(line: &str) -> (r: Option<String>)
    ensures
        optional_text(r) == zsh_line(line@),
{
    let v = chars_of(line);
    match zsh_line_chars(&v) {
        Some(c) => Some(string_of(&c)),
        None => None,
    }
}

/// The command that one line of a bash history holds, if it holds one.
pub fn parse_bash_line(line: &str) -> (r: Option<String>)
    ensures
        optional_text(r) == bash_line(line@),
{
    let v = chars_of(line);
    match bash_line_chars(&v) {
        Some(c) => Some(string_of(&c)),
        None => None,
    }
}

fn bash_commands_of(lines: &Vec<Vec<char>>) -> (r: Vec<Vec<char>>)
    ensures
        views(r@) == bash_commands(views(lines@)),
{
    let mut out: Vec<Vec<char>> = Vec::new();
    let mut i: usize = 0;
    assert(views(lines@).take(0) =~= Seq::<Seq<char>>::empty());
    assert(views(out@) =~= Seq::<Seq<char>>::empty());
    while i < lines.len()
        invariant
            i <= lines.len(),
            views(out@) == bash_commands(views(lines@).take(i as int)),
        decreases lines.len() - i,
    {
        proof {
            let s = views(lines@).take(i + 1);
            assert(s.drop_last() =~= views(lines@).take(i as int));
            assert(s.last() == lines@[i as int]@);
        }
        let ghost before = views(out@);
        match bash_line_chars(&lines[i]) {
            Some(c) => {
                out.push(c);
                assert(views(out@) =~= before.push(out@.last()@));
            },
            None => {},
        }
        i = i + 1;
    }
    assert(views(lines@).take(i as int) =~= views(lines@));
    out
}

fn zsh_commands_of(lines: &Vec<Vec<char>>) -> (r: Vec<Vec<char>>)
    ensures
        views(r@) == zsh_commands(views(lines@)),
{
    let mut done: Vec<Vec<char>> = Vec::new();
    let mut current: Vec<char> = Vec::new();
    let marker = chars_of(": ");
    let mut i: usize = 0;
    assert(views(lines@).take(0) =~= Seq::<Seq<char>>::empty());
    assert(views(done@) =~= Seq::<Seq<char>>::empty());
    while i < lines.len()
        invariant
            i <= lines.len(),
            marker@ == entry_marker(),
            zsh_fold(views(lines@).take(i as int)) == (views(done@), current@),
        decreases lines.len() - i,
    {
        proof {
            let s = views(lines@).take(i + 1);
            assert(s.drop_last() =~= views(lines@).take(i as int));
            assert(s.last() == lines@[i as int]@);
        }
        let line = trim_chars(&lines[i]);
        if line.len() > 0 {
            if starts_with(&line, &marker) {
                if current.len() > 0 {
                    let ghost before = views(done@);
                    done.push(trim_chars(&current));
                    assert(views(done@) =~= before.push(done@.last()@));
                }
                current = match zsh_line_chars(&lines[i]) {
                    Some(c) => c,
                    None => Vec::new(),
                };
            } else {
                if current.len() > 0 {
                    current.push('\n');
                }
                append_chars(&mut current, &line);
                assert(Seq::<char>::empty() + line@ =~= line@);
            }
        }
        i = i + 1;
    }
    assert(views(lines@).take(i as int) =~= views(lines@));
    if current.len() > 0 {
        let ghost before = views(done@);
        done.push(trim_chars(&current));
        assert(views(done@) =~= before.push(done@.last()@));
    }
    done
}

fn drop_own(cmds: &Vec<Vec<char>>) -> (r: Vec<Vec<char>>)
    ensures
        views(r@) == without_own(views(cmds@)),
{
    let mut out: Vec<Vec<char>> = Vec::new();
    let mut i: usize = 0;
    assert(views(cmds@).take(0) =~= Seq::<Seq<char>>::empty());
    assert(views(out@) =~= Seq::<Seq<char>>::empty());
    while i < cmds.len()
        invariant
            i <= cmds.len(),
            views(out@) == without_own(views(cmds@).take(i as int)),
        decreases cmds.len() - i,
    {
        proof {
            let s = views(cmds@).take(i + 1);
            assert(s.drop_last() =~= views(cmds@).take(i as int));
            assert(s.last() == cmds@[i as int]@);
        }
        if !own_invocation(&cmds[i]) {
            let ghost before = views(out@);
            let n: usize = cmds[i].len();
            out.push(slice_chars(&cmds[i], 0, n));
            assert(cmds@[i as int]@.subrange(0, n as int) =~= cmds@[i as int]@);
            assert(views(out@) =~= before.push(out@.last()@));
        }
        i = i + 1;
    }
    assert(views(cmds@).take(i as int) =~= views(cmds@));
    out
}

fn strings_from(cmds: &Vec<Vec<char>>, from: usize) -> (r: Vec<String>)
    requires
        from <= cmds.len(),
    ensures
        texts(r@) == views(cmds@).subrange(from as int, cmds.len() as int),
{
    let mut out: Vec<String> = Vec::new();
    let mut i: usize = from;
    while i < cmds.len()
        invariant
            from <= i <= cmds.len(),
            texts(out@) =~= views(cmds@).subrange(from as int, i as int),
        decreases cmds.len() - i,
    {
        let ghost before = texts(out@);
        out.push(string_of(&cmds[i]));
        assert(texts(out@) =~= before.push(cmds@[i as int]@));
        i = i + 1;
    }
    out
}

/// The last `count` commands of a shell history file's text, oldest first.
/// The text is read as a zsh history where `is_zsh` holds, else as a bash
/// history; invocations of the tool itself are left out before the last
/// `count` are taken.
pub fn get_last_commands(content: &str, is_zsh: bool, count: usize) -> (r: Vec<String>)
    ensures
        texts(r@) == last_n(without_own(recovered_commands(content@, is_zsh)), count as nat),
        forall|i: int| 0 <= i < r.len() ==> !is_own_invocation(#[trigger] r[i]@),
{
    let chars = chars_of(content);
    let lines = lines_of(&chars);
    let commands = if is_zsh {
        zsh_commands_of(&lines)
    } else {
        bash_commands_of(&lines)
    };
    let kept = drop_own(&commands);
    let start: usize = if kept.len() > count {
        kept.len() - count
    } else {
        0
    };
    let r = strings_from(&kept, start);
    proof {
        let all = without_own(recovered_commands(content@, is_zsh));
        lemma_without_own_excludes(recovered_commands(content@, is_zsh));
        assert(all.subrange(0, all.len() as int) =~= all);
        assert forall|i: int| 0 <= i < r.len() implies !is_own_invocation(#[trigger] r[i]@) by {
            assert(texts(r@)[i] == r[i]@);
            assert(all.len() == kept.len());
            assert(texts(r@).len() == r.len());
            assert(views(kept@).subrange(start as int, kept.len() as int)[i] == all[start + i]);
        }
    }
    r
}

/// The commands in a text that holds one command on each line: each line
/// without surrounding white space, blank lines and invocations of the tool
/// itself left out.
pub fn parse_commands_from_string(commands_str: &str) -> (r: Vec<String>)
    ensures
        texts(r@) == without_own(bash_commands(split_lines(commands_str@))),
        forall|i: int| 0 <= i < r.len() ==> !is_own_invocation(#[trigger] r[i]@),
{
    let chars = chars_of(commands_str);
    let lines = lines_of(&chars);
    let commands = bash_commands_of(&lines);
    let kept = drop_own(&commands);
    let r = strings_from(&kept, 0);
    proof {
        let all = without_own(bash_commands(split_lines(commands_str@)));
        lemma_without_own_excludes(bash_commands(split_lines(commands_str@)));
        assert(all.subrange(0, all.len() as int) =~= all);
        assert forall|i: int| 0 <= i < r.len() implies !is_own_invocation(#[trigger] r[i]@) by {
            assert(texts(r@)[i] == r[i]@);
        }
    }
    r
}

/// A command as a numbered line: its position, a full stop, a space, the
/// command and a line feed.
pub open spec fn numbered_line(position: nat, cmd: Seq<char>) -> Seq<char> {
    decimal(position) + ". "@ + cmd + "\n"@
}

/// The commands as numbered lines, the positions counted from one.
pub open spec fn numbered_lines(cmds: Seq<Seq<char>>) -> Seq<char>
    decreases cmds.len(),
{
    if cmds.len() == 0 {
        Seq::empty()
    } else {
        numbered_lines(cmds.drop_last()) + numbered_line(cmds.len(), cmds.last())
    }
}

/// The listing of `k` commands is `k` numbered lines one after the other,
/// the line of each command at the command's place.
pub proof fn listing_has_a_line_for_each_command(cmds: Seq<Seq<char>>)
    ensures
        numbered_lines(cmds) == Seq::new(
            cmds.len(),
            |i: int| numbered_line((i + 1) as nat, cmds[i]),
        ).flatten(),
    decreases cmds.len(),
{
    let lines = Seq::new(cmds.len(), |i: int| numbered_line((i + 1) as nat, cmds[i]));
    lines.lemma_flatten_and_flatten_alt_are_equivalent();
    if cmds.len() > 0 {
        let front = cmds.drop_last();
        let front_lines = Seq::new(front.len(), |i: int| numbered_line((i + 1) as nat, front[i]));
        listing_has_a_line_for_each_command(front);
        front_lines.lemma_flatten_and_flatten_alt_are_equivalent();
        assert(lines.drop_last() =~= front_lines);
        assert(lines.last() == numbered_line(cmds.len(), cmds.last()));
    }
}

/// The excerpt of the history that goes into a prompt: nothing where there
/// are no commands, else the numbered commands inside a fenced block under
/// a heading.
pub open spec fn history_context(cmds: Seq<Seq<char>>) -> Seq<char> {
    if cmds.len() == 0 {
        Seq::empty()
    } else {
        "Here are my last terminal commands:\n```\n"@ + numbered_lines(cmds) + "```\n\n"@
    }
}

/// Formats commands for a prompt.
pub fn format_history_context(commands: &[String]) -> (r: String)
    ensures
        r@ == history_context(texts(commands@)),
{
    if commands.len() == 0 {
        return String::new();
    }
    let mut out = String::from_str("Here are my last terminal commands:\n```\n");
    let ghost head = out@;
    let mut i: usize = 0;
    assert(texts(commands@).take(0) =~= Seq::<Seq<char>>::empty());
    assert(head + Seq::<char>::empty() =~= head);
    while i < commands.len()
        invariant
            i <= commands.len(),
            out@ == head + numbered_lines(texts(commands@).take(i as int)),
        decreases commands.len() - i,
    {
        let mut digits: Vec<char> = Vec::new();
        push_decimal(&mut digits, i + 1);
        let number = string_of(&digits);
        let ghost before = numbered_lines(texts(commands@).take(i as int));
        out.append(number.as_str());
        out.append(". ");
        out.append(commands[i].as_str());
        out.append("\n");
        proof {
            let s = texts(commands@).take(i + 1);
            assert(s.drop_last() =~= texts(commands@).take(i as int));
            assert(s.last() == commands@[i as int]@);
            assert(digits@ =~= decimal((i + 1) as nat));
            assert(out@ =~= head + (before + numbered_line(s.len(), s.last())));
        }
        i = i + 1;
    }
    assert(texts(commands@).take(i as int) =~= texts(commands@));
    out.append("```\n\n");
    out
}

/// Where a history file may lie.
pub enum HistoryCandidate {
    /// A path as it stands.
    Path(String),
    /// A path below the user's home directory.
    UnderHome(String),
}

/// A candidate with its text as a sequence of characters.
pub enum CandidateView {
    Path(Seq<char>),
    UnderHome(Seq<char>),
}

impl View for HistoryCandidate {
    type V = CandidateView;

    open spec fn view(&self) -> CandidateView {
        match self {
            HistoryCandidate::Path(p) => CandidateView::Path(p@),
            HistoryCandidate::UnderHome(p) => CandidateView::UnderHome(p@),
        }
    }
}

/// The views of a sequence of candidates.
pub open spec fn candidate_views(v: Seq<HistoryCandidate>) -> Seq<CandidateView> {
    v.map_values(|c: HistoryCandidate| c@)
}

/// The history files that a shell of the given name may keep, below the
/// home directory, in the order in which they are tried.
pub open spec fn shell_candidates(shell: Seq<char>) -> Seq<CandidateView> {
    if has_infix(shell, "zsh"@) {
        seq![
            CandidateView::UnderHome(".zsh_history"@),
            CandidateView::UnderHome(".zhistory"@),
            CandidateView::UnderHome("Library/History/zsh_history"@),
        ]
    } else if has_infix(shell, "bash"@) {
        seq![CandidateView::UnderHome(".bash_history"@)]
    } else {
        seq![
            CandidateView::UnderHome(".zsh_history"@),
            CandidateView::UnderHome(".bash_history"@),
            CandidateView::UnderHome(".zhistory"@),
            CandidateView::UnderHome("Library/History/zsh_history"@),
        ]
    }
}

/// The configured history file as it stands, where one is configured.
pub open spec fn direct_candidate(histfile: Option<Seq<char>>) -> Seq<CandidateView> {
    match histfile {
        Some(h) => seq![CandidateView::Path(h)],
        None => Seq::empty(),
    }
}

/// The configured history file below the home directory, where its path
/// begins with a tilde and a slash.
pub open spec fn expanded_candidate(histfile: Option<Seq<char>>) -> Seq<CandidateView> {
    match histfile {
        Some(h) => if has_prefix(h, "~/"@) {
            seq![CandidateView::UnderHome(h.subrange(2, h.len() as int))]
        } else {
            Seq::empty()
        },
        None => Seq::empty(),
    }
}

/// The places where the history file is looked for, in order: the
/// configured file; then, where there is a home directory, the configured
/// file with its tilde expanded and the files of the active shell.
pub open spec fn candidate_list(histfile: Option<Seq<char>>, shell: Seq<char>, has_home: bool) -> Seq<
    CandidateView,
> {
    if has_home {
        direct_candidate(histfile) + expanded_candidate(histfile) + shell_candidates(shell)
    } else {
        direct_candidate(histfile)
    }
}

fn under_home(name: &str) -> (r: HistoryCandidate)
    ensures
        r@ == CandidateView::UnderHome(name@),
{
    HistoryCandidate::UnderHome(String::from_str(name))
}

/// The places where the history file is looked for, in the order in which
/// they are tried: the first that exists is the history file.
pub fn history_candidates(histfile: Option<&str>, shell: &str, has_home: bool) -> (r: Vec<
    HistoryCandidate,
>)
    ensures
        candidate_views(r@) == candidate_list(
            match histfile {
                Some(h) => Some(h@),
                None => None,
            },
            shell@,
            has_home,
        ),
{
    let mut out: Vec<HistoryCandidate> = Vec::new();
    if let Some(h) = histfile {
        out.push(HistoryCandidate::Path(String::from_str(h)));
    }
    if has_home {
        if let Some(h) = histfile {
            let chars = chars_of(h);
            let tilde = chars_of("~/");
            proof {
                reveal_strlit("~/");
            }
            if starts_with(&chars, &tilde) {
                let rest = slice_chars(&chars, 2, chars.len());
                out.push(HistoryCandidate::UnderHome(string_of(&rest)));
            }
        }
        let shell_chars = chars_of(shell);
        let zsh = chars_of("zsh");
        let bash = chars_of("bash");
        if contains(&shell_chars, &zsh) {
            out.push(under_home(".zsh_history"));
            out.push(under_home(".zhistory"));
            out.push(under_home("Library/History/zsh_history"));
        } else if contains(&shell_chars, &bash) {
            out.push(under_home(".bash_history"));
        } else {
            out.push(under_home(".zsh_history"));
            out.push(under_home(".bash_history"));
            out.push(under_home(".zhistory"));
            out.push(under_home("Library/History/zsh_history"));
        }
    }
    assert(candidate_views(out@) =~= candidate_list(
        match histfile {
            Some(h) => Some(h@),
            None => None,
        },
        shell@,
        has_home,
    ));
    out
}

/// Whether a history file of this path is read as a zsh history.
pub fn is_zsh_history(path: &str) -> (r: bool)
    ensures
        r == has_infix(path@, "zsh"@),
{
    let chars = chars_of(path);
    let zsh = chars_of("zsh");
    contains(&chars, &zsh)
}

/// Whether a line of a zsh history opens an entry that holds a command.
pub open spec fn is_entry(line: Seq<char>) -> bool {
    has_prefix(trim(line), entry_marker()) && zsh_line(line) is Some
}

/// The command of each line, for lines that each open an entry.
pub open spec fn entry_commands(lines: Seq<Seq<char>>) -> Seq<Seq<char>> {
    Seq::new(
        lines.len(),
        |i: int|
            trim(
                match zsh_line(lines[i]) {
                    Some(c) => c,
                    None => Seq::empty(),
                },
            ),
    )
}

/// The command that a line holds is not empty.
pub proof fn lemma_zsh_line_not_empty(line: Seq<char>)
    requires
        zsh_line(line) is Some,
    ensures
        zsh_line(line)->0.len() > 0,
{
    lemma_first_index_bounds(trim(line), ';');
}

/// After lines that each open an entry, the entries before the last are
/// finished and the last one is open.
proof fn lemma_fold_of_entries(lines: Seq<Seq<char>>)
    requires
        lines.len() > 0,
        forall|i: int| 0 <= i < lines.len() ==> is_entry(#[trigger] lines[i]),
    ensures
        zsh_fold(lines) == (entry_commands(lines.drop_last()), zsh_line(lines.last())->0),
    decreases lines.len(),
{
    let front = lines.drop_last();
    lemma_zsh_line_not_empty(lines.last());
    assert(is_entry(lines[lines.len() - 1]));
    assert(trim(lines.last()).len() > 0);
    assert(zsh_fold(lines) == zsh_step(zsh_fold(front), lines.last()));
    if front.len() == 0 {
        assert(entry_commands(front) =~= Seq::<Seq<char>>::empty());
        assert(zsh_fold(front) == (Seq::<Seq<char>>::empty(), Seq::<char>::empty()));
    } else {
        assert forall|i: int| 0 <= i < front.len() implies is_entry(#[trigger] front[i]) by {
            assert(front[i] == lines[i]);
        }
        lemma_fold_of_entries(front);
        lemma_zsh_line_not_empty(front.last());
        assert(entry_commands(front) =~= entry_commands(front.drop_last()).push(
            trim(zsh_line(front.last())->0),
        ));
    }
}

/// A zsh history in which every line opens an entry with a command holds
/// exactly the commands of its lines, in the order of the lines.
pub proof fn entries_yield_their_commands(lines: Seq<Seq<char>>)
    requires
        forall|i: int| 0 <= i < lines.len() ==> is_entry(#[trigger] lines[i]),
    ensures
        zsh_commands(lines) == entry_commands(lines),
{
    if lines.len() == 0 {
        assert(entry_commands(lines) =~= Seq::<Seq<char>>::empty());
    } else {
        lemma_fold_of_entries(lines);
        lemma_zsh_line_not_empty(lines.last());
        assert(entry_commands(lines) =~= entry_commands(lines.drop_last()).push(
            trim(zsh_line(lines.last())->0),
        ));
    }
}

/// In a zsh history, a line that opens no entry continues the entry that
/// the line before it opened: the two make one command, joined by a line
/// feed.
pub proof fn continuation_joins_lines(first: Seq<char>, second: Seq<char>)
    requires
        is_entry(first),
        trim(second).len() > 0,
        !has_prefix(trim(second), entry_marker()),
    ensures
        zsh_commands(seq![first, second]) == seq![
            trim(zsh_line(first)->0.push('\n') + trim(second)),
        ],
{
    let lines = seq![first, second];
    let one = lines.drop_last();
    assert(one =~= seq![first]);
    assert(one.drop_last() =~= Seq::<Seq<char>>::empty());
    assert(zsh_fold(one.drop_last()) == (Seq::<Seq<char>>::empty(), Seq::<char>::empty()));
    assert(zsh_fold(one) == zsh_step(zsh_fold(one.drop_last()), first));
    let command = zsh_line(first)->0;
    lemma_zsh_line_not_empty(first);
    assert(zsh_fold(one) == (Seq::<Seq<char>>::empty(), command));
    assert(zsh_fold(lines) == zsh_step(zsh_fold(one), second));
    assert(zsh_commands(lines) =~= seq![trim(command.push('\n') + trim(second))]);
}

} // verus!
