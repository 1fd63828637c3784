//! Autostart of the background agent: the systemd user unit, where it lives,
//! whose it is, and what has to happen to it when the setting changes.
use vstd::prelude::*;

use crate::text::{begins, begins_at, chars_of, find_char, first_index, join_path, joined,
    lemma_first_index, lemma_first_index_is, same_text, slice_text};

verus! {

/// Name of the systemd user unit file.
pub const UNIT_NAME: &'static str = "openlogi-agent.service";

// ── Escaping ────────────────────────────────────────────────────────────────

/// Whether systemd gives the character a meaning that doubling takes away.
pub open spec fn is_doubled(c: char) -> bool {
    c == '%' || c == '$'
}

/// Every specifier and variable sign doubled.
pub open spec fn doubled(chars: Seq<char>) -> Seq<char>
    decreases chars.len(),
{
    if chars.len() == 0 {
        chars
    } else if is_doubled(chars[0]) {
        seq![chars[0], chars[0]] + doubled(chars.skip(1))
    } else {
        seq![chars[0]] + doubled(chars.skip(1))
    }
}

/// A backslash in front of every double quote.
pub open spec fn quote_escaped(chars: Seq<char>) -> Seq<char>
    decreases chars.len(),
{
    if chars.len() == 0 {
        chars
    } else if chars[0] == '"' {
        seq!['\\', '"'] + quote_escaped(chars.skip(1))
    } else {
        seq![chars[0]] + quote_escaped(chars.skip(1))
    }
}

/// A program path as an `ExecStart` value.
pub open spec fn escaped(program: Seq<char>) -> Seq<char> {
    if program.contains(' ') {
        (seq!['"'] + quote_escaped(doubled(program))).push('"')
    } else {
        doubled(program)
    }
}

/// Pairs of specifier or variable signs taken for one.
pub open spec fn collapsed(chars: Seq<char>) -> Seq<char>
    decreases chars.len(),
{
    if chars.len() == 0 {
        chars
    } else if chars.len() >= 2 && is_doubled(chars[0]) && chars[1] == chars[0] {
        seq![chars[0]] + collapsed(chars.skip(2))
    } else {
        seq![chars[0]] + collapsed(chars.skip(1))
    }
}

/// What stands before the closing quote, with the escaped quotes restored.
pub open spec fn quoted_body(chars: Seq<char>) -> Seq<char>
    decreases chars.len(),
{
    if chars.len() == 0 || chars[0] == '"' {
        Seq::empty()
    } else if chars.len() >= 2 && chars[0] == '\\' && chars[1] == '"' {
        seq!['"'] + quoted_body(chars.skip(2))
    } else {
        seq![chars[0]] + quoted_body(chars.skip(1))
    }
}

/// The program named by an `ExecStart` value: its arguments and escapes removed.
pub open spec fn unescaped(value: Seq<char>) -> Seq<char> {
    if value.len() > 0 && value[0] == '"' {
        collapsed(quoted_body(value.skip(1)))
    } else {
        collapsed(value.take(first_index(value, ' ')))
    }
}

fn double_signs(chars: &Vec<char>) -> (out: Vec<char>)
    ensures
        out@ == doubled(chars@),
{
    let mut out: Vec<char> = Vec::new();
    let mut i: usize = 0;
    assert(chars@.skip(0) =~= chars@);
    while i < chars.len()
        invariant
            i <= chars.len(),
            out@ + doubled(chars@.skip(i as int)) == doubled(chars@),
        decreases chars.len() - i,
    {
        let c: char = chars[i];
        let ghost before = out@;
        proof {
            let rest = chars@.skip(i as int);
            assert(rest.skip(1) =~= chars@.skip(i + 1));
            assert(rest[0] == c);
        }
        out.push(c);
        if c == '%' || c == '$' {
            out.push(c);
        }
        i = i + 1;
        assert(out@ + doubled(chars@.skip(i as int)) =~= before + doubled(chars@.skip(i - 1)));
    }
    assert(out@ =~= doubled(chars@));
    out
}

fn escape_quotes(chars: &Vec<char>) -> (out: Vec<char>)
    ensures
        out@ == quote_escaped(chars@),
{
    let mut out: Vec<char> = Vec::new();
    let mut i: usize = 0;
    assert(chars@.skip(0) =~= chars@);
    while i < chars.len()
        invariant
            i <= chars.len(),
            out@ + quote_escaped(chars@.skip(i as int)) == quote_escaped(chars@),
        decreases chars.len() - i,
    {
        let c: char = chars[i];
        let ghost before = out@;
        proof {
            let rest = chars@.skip(i as int);
            assert(rest.skip(1) =~= chars@.skip(i + 1));
            assert(rest[0] == c);
        }
        if c == '"' {
            out.push('\\');
        }
        out.push(c);
        i = i + 1;
        assert(out@ + quote_escaped(chars@.skip(i as int)) =~= before + quote_escaped(
            chars@.skip(i - 1),
        ));
    }
    assert(out@ =~= quote_escaped(chars@));
    out
}

fn collapse_signs(chars: &Vec<char>) -> (out: String)
    ensures
        out@ == collapsed(chars@),
{
    let mut out: String = String::new();
    let mut i: usize = 0;
    assert(chars@.skip(0) =~= chars@);
    while i < chars.len()
        invariant
            i <= chars.len(),
            out@ + collapsed(chars@.skip(i as int)) == collapsed(chars@),
        decreases chars.len() - i,
    {
        let c: char = chars[i];
        let ghost before = out@;
        let ghost rest = chars@.skip(i as int);
        let ghost at = i as int;
        out.push(c);
        if (c == '%' || c == '$') && chars.len() - i >= 2 && chars[i + 1] == c {
            assert(rest[1] == c);
            i = i + 2;
            assert(rest.skip(2) =~= chars@.skip(i as int));
        } else {
            i = i + 1;
            assert(rest.len() >= 2 ==> rest[1] == chars@[at + 1]);
            assert(rest.skip(1) =~= chars@.skip(i as int));
        }
        assert(rest[0] == c);
        assert(out@ + collapsed(chars@.skip(i as int)) =~= before + collapsed(rest));
    }
    assert(out@ =~= collapsed(chars@));
    out
}

fn read_quoted(chars: &Vec<char>, from: usize) -> (out: Vec<char>)
    requires
        from <= chars.len(),
    ensures
        out@ == quoted_body(chars@.skip(from as int)),
{
    let mut out: Vec<char> = Vec::new();
    let mut i: usize = from;
    while i < chars.len() && chars[i] != '"'
        invariant
            from <= i <= chars.len(),
            out@ + quoted_body(chars@.skip(i as int)) == quoted_body(chars@.skip(from as int)),
        decreases chars.len() - i,
    {
        let c: char = chars[i];
        let ghost before = out@;
        let ghost rest = chars@.skip(i as int);
        let ghost at = i as int;
        if c == '\\' && chars.len() - i >= 2 && chars[i + 1] == '"' {
            assert(rest[1] == '"');
            out.push('"');
            i = i + 2;
            assert(rest.skip(2) =~= chars@.skip(i as int));
        } else {
            out.push(c);
            i = i + 1;
            assert(rest.len() >= 2 ==> rest[1] == chars@[at + 1]);
            assert(rest.skip(1) =~= chars@.skip(i as int));
        }
        assert(rest[0] == c);
        assert(out@ + quoted_body(chars@.skip(i as int)) =~= before + quoted_body(rest));
    }
    assert(out@ =~= quoted_body(chars@.skip(from as int))) by {
        let rest = chars@.skip(i as int);
        if i < chars.len() {
            assert(rest[0] == '"');
        }
        assert(quoted_body(rest) =~= Seq::<char>::empty());
    }
    out
}

/// Escape a program path for use as `ExecStart` in a unit file.
///
/// `%` starts a specifier and `$` a variable, so both are doubled. A value with
/// a space is wrapped in double quotes, with the quotes inside it escaped.
pub fn escape_systemd_exec(program: &str) -> (value: String)
    ensures
        value@ == escaped(program@),
{
    let chars: Vec<char> = chars_of(program);
    let twice: Vec<char> = double_signs(&chars);
    let space: usize = find_char(&chars, 0, ' ');
    proof {
        assert(chars@.skip(0) =~= chars@);
        lemma_first_index(chars@, ' ');
        if space < chars.len() {
            assert(program@[space as int] == ' ');
        }
    }
    if space < chars.len() {
        let inner: Vec<char> = escape_quotes(&twice);
        let mut value: String = String::new();
        value.push('"');
        value.append(crate::text::text_of(&inner).as_str());
        value.push('"');
        assert(value@ =~= escaped(program@));
        value
    } else {
        assert(!program@.contains(' '));
        crate::text::text_of(&twice)
    }
}

/// The program that an `ExecStart` value starts. Its arguments are dropped.
pub fn unescape_systemd_exec(value: &str) -> (program: String)
    ensures
        program@ == unescaped(value@),
{
    let chars: Vec<char> = chars_of(value);
    if chars.len() > 0 && chars[0] == '"' {
        let inner: Vec<char> = read_quoted(&chars, 1);
        collapse_signs(&inner)
    } else {
        let end: usize = find_char(&chars, 0, ' ');
        assert(chars@.skip(0) =~= chars@);
        let word: String = slice_text(&chars, 0, end);
        let word_chars: Vec<char> = chars_of(word.as_str());
        assert(word_chars@ =~= value@.take(first_index(value@, ' ')));
        collapse_signs(&word_chars)
    }
}

proof fn lemma_collapse_undoes_doubling(chars: Seq<char>)
    ensures
        collapsed(doubled(chars)) == chars,
    decreases chars.len(),
{
    if chars.len() > 0 {
        let rest = chars.skip(1);
        lemma_collapse_undoes_doubling(rest);
        let twice = doubled(chars);
        if is_doubled(chars[0]) {
            assert(twice.skip(2) =~= doubled(rest));
        } else {
            assert(twice.skip(1) =~= doubled(rest));
        }
        assert(collapsed(twice) =~= seq![chars[0]] + rest);
        assert(seq![chars[0]] + rest =~= chars);
    }
}

proof fn lemma_quoted_body_undoes_quoting(chars: Seq<char>)
    requires
        chars.len() > 0 ==> chars.last() != '\\',
    ensures
        quoted_body(quote_escaped(chars).push('"')) == chars,
    decreases chars.len(),
{
    let quoted = quote_escaped(chars).push('"');
    if chars.len() > 0 {
        let rest = chars.skip(1);
        if rest.len() > 0 {
            assert(rest.last() == chars.last());
        }
        lemma_quoted_body_undoes_quoting(rest);
        let tail = quote_escaped(rest).push('"');
        if chars[0] == '"' {
            assert(quoted.skip(2) =~= tail);
            assert(quoted_body(quoted) =~= seq!['"'] + quoted_body(tail));
        } else {
            assert(quoted.skip(1) =~= tail);
            assert(quoted[0] == chars[0]);
            if chars[0] == '\\' {
                assert(rest.len() > 0);
                assert(quoted[1] == tail[0]);
                if rest[0] == '"' {
                    assert(quote_escaped(rest)[0] == '\\');
                } else {
                    assert(quote_escaped(rest)[0] == rest[0]);
                }
                assert(quoted[1] != '"');
            }
            assert(quoted_body(quoted) =~= seq![chars[0]] + quoted_body(tail));
        }
        assert(seq![chars[0]] + rest =~= chars);
    } else {
        assert(quoted[0] == '"');
        assert(quoted_body(quoted) =~= chars);
    }
}

proof fn lemma_doubled_last(chars: Seq<char>)
    requires
        chars.len() > 0,
    ensures
        doubled(chars).len() > 0,
        doubled(chars).last() == chars.last(),
    decreases chars.len(),
{
    let rest = chars.skip(1);
    if rest.len() > 0 {
        lemma_doubled_last(rest);
        assert(rest.last() == chars.last());
    } else {
        assert(doubled(rest) =~= Seq::<char>::empty());
    }
}

proof fn lemma_doubled_keeps_absence(chars: Seq<char>, wanted: char)
    requires
        !chars.contains(wanted),
    ensures
        !doubled(chars).contains(wanted),
    decreases chars.len(),
{
    if chars.len() > 0 {
        let rest = chars.skip(1);
        assert(!rest.contains(wanted)) by {
            if rest.contains(wanted) {
                let i = choose|i: int| 0 <= i < rest.len() && rest[i] == wanted;
                assert(chars[i + 1] == wanted);
            }
        }
        lemma_doubled_keeps_absence(rest, wanted);
        assert(chars[0] != wanted);
        let twice = doubled(chars);
        let lead: int = if is_doubled(chars[0]) { 2 } else { 1 };
        assert forall|i: int| 0 <= i < twice.len() implies twice[i] != wanted by {
            if i >= lead {
                assert(twice[i] == doubled(rest)[i - lead]);
            }
        }
    }
}

/// Unescaping an escaped program path gives the path back. The two shapes left
/// out are those that quoting cannot carry: a path with a space that ends in a
/// backslash, and a path without a space that begins with a double quote.
pub proof fn unescaping_inverts_escaping(program: Seq<char>)
    requires
        program.contains(' ') ==> program.last() != '\\',
        !program.contains(' ') ==> (program.len() == 0 || program[0] != '"'),
    ensures
        unescaped(escaped(program)) == program,
{
    let twice = doubled(program);
    lemma_collapse_undoes_doubling(program);
    if program.contains(' ') {
        lemma_doubled_last(program);
        lemma_quoted_body_undoes_quoting(twice);
        let value = escaped(program);
        assert(value[0] == '"');
        assert(value.skip(1) =~= quote_escaped(twice).push('"'));
    } else {
        lemma_doubled_keeps_absence(program, ' ');
        assert forall|i: int| 0 <= i < twice.len() implies twice[i] != ' ' by {
            assert(twice.contains(twice[i]));
        }
        lemma_first_index_is(twice, ' ', twice.len() as int);
        assert(twice.take(twice.len() as int) =~= twice);
        if program.len() > 0 {
            assert(twice[0] == program[0]);
        }
    }
}

// ── Rendering ───────────────────────────────────────────────────────────────

/// A line of a unit file.
pub open spec fn line(text: Seq<char>) -> Seq<char> {
    text.push('\n')
}

/// The lines of the unit before the `ExecStart` value.
pub open spec fn unit_head() -> Seq<char> {
    line("[Unit]"@)
        + line("Description=OpenLogi background agent (Logitech HID++ device control)"@)
        + line("After=graphical-session.target"@)
        + line(""@)
        + line("[Service]"@)
        + line("Type=simple"@)
}

/// The lines of the unit after the `ExecStart` value.
pub open spec fn unit_tail() -> Seq<char> {
    line("Restart=on-failure"@)
        + line("RestartSec=5"@)
        + line(""@)
        + line("[Install]"@)
        + line("WantedBy=graphical-session.target"@)
}

/// The unit with the given, already escaped, `ExecStart` value.
pub open spec fn unit_text(value: Seq<char>) -> Seq<char> {
    unit_head() + line("ExecStart="@ + value) + unit_tail()
}

fn push_line(unit: &mut String, text: &str)
    ensures
        final(unit)@ == old(unit)@ + line(text@),
{
    unit.append(text);
    unit.push('\n');
    assert(unit@ =~= old(unit)@ + line(text@));
}

/// Render the unit around an `ExecStart` value that is already escaped.
pub fn render_unit_with_exec(value: &str) -> (unit: String)
    ensures
        unit@ == unit_text(value@),
{
    let mut unit: String = String::new();
    push_line(&mut unit, "[Unit]");
    assert(unit@ =~= line("[Unit]"@));
    push_line(&mut unit, "Description=OpenLogi background agent (Logitech HID++ device control)");
    push_line(&mut unit, "After=graphical-session.target");
    push_line(&mut unit, "");
    push_line(&mut unit, "[Service]");
    push_line(&mut unit, "Type=simple");
    let ghost head = unit@;
    assert(head == unit_head());
    unit.append("ExecStart=");
    unit.append(value);
    unit.push('\n');
    assert(unit@ =~= head + line("ExecStart="@ + value@));
    let mut tail: String = String::new();
    push_line(&mut tail, "Restart=on-failure");
    assert(tail@ =~= line("Restart=on-failure"@));
    push_line(&mut tail, "RestartSec=5");
    push_line(&mut tail, "");
    push_line(&mut tail, "[Install]");
    push_line(&mut tail, "WantedBy=graphical-session.target");
    unit.append(tail.as_str());
    unit
}

/// Render the systemd user unit for an executable path.
///
/// `Restart=on-failure` respawns the agent after a crash, while a clean exit
/// stays stopped until the next login.
pub fn render_unit(exe: &str) -> (unit: String)
    ensures
        unit@ == unit_text(escaped(exe@)),
{
    let value: String = escape_systemd_exec(exe);
    render_unit_with_exec(value.as_str())
}

// ── Reading a unit back ─────────────────────────────────────────────────────

/// What follows the first line.
pub open spec fn after_line(text: Seq<char>) -> Seq<char> {
    let end = first_index(text, '\n');
    if end < text.len() {
        text.skip(end + 1)
    } else {
        Seq::empty()
    }
}

/// The values of all `ExecStart` lines, in order.
pub open spec fn exec_values(text: Seq<char>) -> Seq<Seq<char>>
    decreases text.len(),
    via exec_values_shrink
{
    if text.len() == 0 {
        Seq::empty()
    } else {
        let first = text.take(first_index(text, '\n'));
        let later = exec_values(after_line(text));
        if begins(first, "ExecStart="@) {
            seq![first.skip("ExecStart="@.len() as int)] + later
        } else {
            later
        }
    }
}

#[via_fn]
proof fn exec_values_shrink(text: Seq<char>) {
    lemma_first_index(text, '\n');
}

/// The `ExecStart` value of a unit that has exactly one.
pub open spec fn exec_start(text: Seq<char>) -> Option<Seq<char>> {
    if exec_values(text).len() == 1 {
        Some(exec_values(text)[0])
    } else {
        None
    }
}

/// Whether the text is a rendering of the unit for some executable.
pub open spec fn is_generated(text: Seq<char>) -> bool {
    exec_start(text) matches Some(value) && text == unit_text(value)
}

/// The `ExecStart` value of a unit, still escaped. A unit without such a line,
/// or with two, has none.
pub fn exec_start_value(unit: &str) -> (value: Option<String>)
    ensures
        exec_start(unit@) matches Some(text) ==> value is Some && value->0@ == text,
        exec_start(unit@) is None ==> value is None,
{
    let chars: Vec<char> = chars_of(unit);
    let key: Vec<char> = chars_of("ExecStart=");
    let mut found: Option<String> = None;
    let mut count: usize = 0;
    let mut i: usize = 0;
    assert(chars@.skip(0) =~= chars@);
    assert(Seq::<Seq<char>>::empty() + exec_values(chars@) =~= exec_values(chars@));
    let ghost mut seen: Seq<Seq<char>> = Seq::empty();
    while i < chars.len()
        invariant
            i <= chars.len(),
            key@ == "ExecStart="@,
            seen + exec_values(chars@.skip(i as int)) == exec_values(chars@),
            count <= 2,
            count < 2 ==> seen.len() == count,
            count == 2 ==> seen.len() >= 2,
            found is Some <==> count > 0,
            count == 1 ==> found->0@ == seen[0],
        decreases chars.len() - i,
    {
        let end: usize = find_char(&chars, i, '\n');
        let ghost rest = chars@.skip(i as int);
        let ghost first = rest.take(first_index(rest, '\n'));
        assert(chars@.subrange(i as int, end as int) =~= first);
        let text: String = slice_text(&chars, i, end);
        let text_chars: Vec<char> = chars_of(text.as_str());
        assert(text_chars@.skip(0) =~= text_chars@);
        let ghost before = seen;
        if begins_at(&text_chars, 0, &key) {
            let value: String = slice_text(&text_chars, key.len(), text_chars.len());
            assert(value@ =~= first.skip("ExecStart="@.len() as int));
            proof {
                seen = seen.push(value@);
            }
            if count < 2 {
                count = count + 1;
            }
            found = Some(value);
        }
        if end < chars.len() {
            i = end + 1;
        } else {
            i = end;
        }
        assert(chars@.skip(i as int) =~= after_line(rest));
        assert(seen + exec_values(chars@.skip(i as int)) =~= before + exec_values(rest));
    }
    proof {
        assert(chars@.skip(i as int) =~= Seq::<char>::empty());
        assert(seen =~= exec_values(chars@));
    }
    if count == 1 {
        found
    } else {
        None
    }
}

/// Whether the unit is one that [`render_unit`] wrote, for any executable. A
/// unit that anybody edited is theirs.
pub fn is_generated_unit(unit: &str) -> (ours: bool)
    ensures
        ours == is_generated(unit@),
{
    match exec_start_value(unit) {
        Some(value) => {
            let again: String = render_unit_with_exec(value.as_str());
            same_text(unit, again.as_str())
        },
        None => false,
    }
}

proof fn lemma_one_line(text: Seq<char>, rest: Seq<char>)
    requires
        !text.contains('\n'),
    ensures
        exec_values(line(text) + rest) == (if begins(text, "ExecStart="@) {
            seq![text.skip("ExecStart="@.len() as int)] + exec_values(rest)
        } else {
            exec_values(rest)
        }),
{
    let whole = line(text) + rest;
    assert forall|i: int| 0 <= i < text.len() implies whole[i] != '\n' by {
        assert(whole[i] == text[i]);
        assert(text.contains(text[i]));
    }
    assert(whole[text.len() as int] == '\n');
    lemma_first_index_is(whole, '\n', text.len() as int);
    assert(whole.take(text.len() as int) =~= text);
    assert(after_line(whole) =~= rest);
}

/// None of the first `count` characters is a line feed.
spec fn one_line(text: Seq<char>, count: nat) -> bool
    decreases count,
{
    count == 0 || (text[count - 1] != '\n' && one_line(text, (count - 1) as nat))
}

proof fn lemma_one_line_has_no_feed(text: Seq<char>, count: nat)
    requires
        count <= text.len(),
        one_line(text, count),
    ensures
        forall|i: int| 0 <= i < count ==> text[i] != '\n',
    decreases count,
{
    if count > 0 {
        lemma_one_line_has_no_feed(text, (count - 1) as nat);
    }
}

/// A literal line that is no `ExecStart` line adds no value.
proof fn lemma_other_line(text: Seq<char>, rest: Seq<char>)
    requires
        one_line(text, text.len()),
        text.len() == 0 || text[0] != 'E',
    ensures
        exec_values(line(text) + rest) == exec_values(rest),
{
    lemma_one_line_has_no_feed(text, text.len());
    reveal_strlit("ExecStart=");
    if begins(text, "ExecStart="@) {
        assert(text.take("ExecStart="@.len() as int)[0] == 'E');
    }
    lemma_one_line(text, rest);
}

proof fn lemma_tail_has_no_values()
    ensures
        exec_values(unit_tail()) == Seq::<Seq<char>>::empty(),
{
    reveal_with_fuel(one_line, 40);
    reveal_strlit("Restart=on-failure");
    reveal_strlit("RestartSec=5");
    reveal_strlit("");
    reveal_strlit("[Install]");
    reveal_strlit("WantedBy=graphical-session.target");
    let none = Seq::<char>::empty();
    let e = line("WantedBy=graphical-session.target"@) + none;
    let d = line("[Install]"@) + e;
    let c = line(""@) + d;
    let b = line("RestartSec=5"@) + c;
    let a = line("Restart=on-failure"@) + b;
    lemma_other_line("WantedBy=graphical-session.target"@, none);
    lemma_other_line("[Install]"@, e);
    lemma_other_line(""@, d);
    lemma_other_line("RestartSec=5"@, c);
    lemma_other_line("Restart=on-failure"@, b);
    assert(a =~= unit_tail());
    assert(exec_values(none) =~= Seq::<Seq<char>>::empty());
}

proof fn lemma_head_adds_no_values(rest: Seq<char>)
    ensures
        exec_values(unit_head() + rest) == exec_values(rest),
{
    reveal_with_fuel(one_line, 80);
    reveal_strlit("[Unit]");
    reveal_strlit("Description=OpenLogi background agent (Logitech HID++ device control)");
    reveal_strlit("After=graphical-session.target");
    reveal_strlit("");
    reveal_strlit("[Service]");
    reveal_strlit("Type=simple");
    let f = line("Type=simple"@) + rest;
    let e = line("[Service]"@) + f;
    let d = line(""@) + e;
    let c = line("After=graphical-session.target"@) + d;
    let b = line("Description=OpenLogi background agent (Logitech HID++ device control)"@) + c;
    let a = line("[Unit]"@) + b;
    lemma_other_line("Type=simple"@, rest);
    lemma_other_line("[Service]"@, f);
    lemma_other_line(""@, e);
    lemma_other_line("After=graphical-session.target"@, d);
    lemma_other_line(
        "Description=OpenLogi background agent (Logitech HID++ device control)"@,
        c,
    );
    lemma_other_line("[Unit]"@, b);
    assert(a =~= unit_head() + rest);
}

/// The `ExecStart` value of a rendered unit is the value it was rendered with,
/// still escaped, as long as the value is one line.
pub proof fn rendered_value_reads_back(value: Seq<char>)
    requires
        !value.contains('\n'),
    ensures
        exec_start(unit_text(value)) == Some(value),
        is_generated(unit_text(value)),
{
    let key = "ExecStart="@;
    reveal_strlit("ExecStart=");
    reveal_with_fuel(one_line, 12);
    lemma_one_line_has_no_feed(key, key.len());
    let text = key + value;
    assert(!text.contains('\n')) by {
        if text.contains('\n') {
            let i = choose|i: int| 0 <= i < text.len() && text[i] == '\n';
            if i >= key.len() {
                assert(value[i - key.len()] == '\n');
            }
        }
    }
    let rest = line(text) + unit_tail();
    assert(unit_text(value) =~= unit_head() + rest);
    lemma_head_adds_no_values(rest);
    assert(text.take(key.len() as int) =~= key);
    assert(text.skip(key.len() as int) =~= value);
    lemma_one_line(text, unit_tail());
    lemma_tail_has_no_values();
    assert(exec_values(unit_text(value)) =~= seq![value]);
}

/// A unit rendered for any executable whose path is one line is recognised.
pub proof fn rendered_unit_is_generated(exe: Seq<char>)
    requires
        !exe.contains('\n'),
    ensures
        is_generated(unit_text(escaped(exe))),
        exec_start(unit_text(escaped(exe))) == Some(escaped(exe)),
{
    lemma_escaped_is_one_line(exe);
    rendered_value_reads_back(escaped(exe));
}

/// The lines of a text.
pub open spec fn lines_of(text: Seq<char>) -> Seq<Seq<char>>
    decreases text.len(),
    via lines_of_shrink
{
    if text.len() == 0 {
        Seq::empty()
    } else {
        seq![text.take(first_index(text, '\n'))] + lines_of(after_line(text))
    }
}

#[via_fn]
proof fn lines_of_shrink(text: Seq<char>) {
    lemma_first_index(text, '\n');
}

/// The lines of the unit with the given, already escaped, `ExecStart` value.
pub open spec fn unit_lines(value: Seq<char>) -> Seq<Seq<char>> {
    seq![
        "[Unit]"@,
        "Description=OpenLogi background agent (Logitech HID++ device control)"@,
        "After=graphical-session.target"@,
        ""@,
        "[Service]"@,
        "Type=simple"@,
        "ExecStart="@ + value,
        "Restart=on-failure"@,
        "RestartSec=5"@,
        ""@,
        "[Install]"@,
        "WantedBy=graphical-session.target"@,
    ]
}

proof fn lemma_first_line(text: Seq<char>, rest: Seq<char>)
    requires
        !text.contains('\n'),
    ensures
        lines_of(line(text) + rest) == seq![text] + lines_of(rest),
{
    let whole = line(text) + rest;
    assert forall|i: int| 0 <= i < text.len() implies whole[i] != '\n' by {
        assert(whole[i] == text[i]);
        assert(text.contains(text[i]));
    }
    assert(whole[text.len() as int] == '\n');
    lemma_first_index_is(whole, '\n', text.len() as int);
    assert(whole.take(text.len() as int) =~= text);
    assert(after_line(whole) =~= rest);
}

/// A literal line stands before the others.
proof fn lemma_literal_line(text: Seq<char>, rest: Seq<char>)
    requires
        one_line(text, text.len()),
    ensures
        lines_of(line(text) + rest) == seq![text] + lines_of(rest),
{
    lemma_one_line_has_no_feed(text, text.len());
    lemma_first_line(text, rest);
}

proof fn lemma_tail_lines()
    ensures
        lines_of(unit_tail()) == seq![
            "Restart=on-failure"@,
            "RestartSec=5"@,
            ""@,
            "[Install]"@,
            "WantedBy=graphical-session.target"@,
        ],
{
    reveal_with_fuel(one_line, 40);
    reveal_strlit("Restart=on-failure");
    reveal_strlit("RestartSec=5");
    reveal_strlit("");
    reveal_strlit("[Install]");
    reveal_strlit("WantedBy=graphical-session.target");
    let none = Seq::<char>::empty();
    let e = line("WantedBy=graphical-session.target"@) + none;
    let d = line("[Install]"@) + e;
    let c = line(""@) + d;
    let b = line("RestartSec=5"@) + c;
    let a = line("Restart=on-failure"@) + b;
    lemma_literal_line("WantedBy=graphical-session.target"@, none);
    lemma_literal_line("[Install]"@, e);
    lemma_literal_line(""@, d);
    lemma_literal_line("RestartSec=5"@, c);
    lemma_literal_line("Restart=on-failure"@, b);
    assert(a =~= unit_tail());
    assert(lines_of(none) =~= Seq::<Seq<char>>::empty());
    assert(lines_of(a) =~= seq![
        "Restart=on-failure"@,
        "RestartSec=5"@,
        ""@,
        "[Install]"@,
        "WantedBy=graphical-session.target"@,
    ]);
}

proof fn lemma_head_lines(rest: Seq<char>)
    ensures
        lines_of(unit_head() + rest) == seq![
            "[Unit]"@,
            "Description=OpenLogi background agent (Logitech HID++ device control)"@,
            "After=graphical-session.target"@,
            ""@,
            "[Service]"@,
            "Type=simple"@,
        ] + lines_of(rest),
{
    reveal_with_fuel(one_line, 80);
    reveal_strlit("[Unit]");
    reveal_strlit("Description=OpenLogi background agent (Logitech HID++ device control)");
    reveal_strlit("After=graphical-session.target");
    reveal_strlit("");
    reveal_strlit("[Service]");
    reveal_strlit("Type=simple");
    let f = line("Type=simple"@) + rest;
    let e = line("[Service]"@) + f;
    let d = line(""@) + e;
    let c = line("After=graphical-session.target"@) + d;
    let b = line("Description=OpenLogi background agent (Logitech HID++ device control)"@) + c;
    let a = line("[Unit]"@) + b;
    lemma_literal_line("Type=simple"@, rest);
    lemma_literal_line("[Service]"@, f);
    lemma_literal_line(""@, e);
    lemma_literal_line("After=graphical-session.target"@, d);
    lemma_literal_line(
        "Description=OpenLogi background agent (Logitech HID++ device control)"@,
        c,
    );
    lemma_literal_line("[Unit]"@, b);
    assert(a =~= unit_head() + rest);
    assert(lines_of(a) =~= seq![
        "[Unit]"@,
        "Description=OpenLogi background agent (Logitech HID++ device control)"@,
        "After=graphical-session.target"@,
        ""@,
        "[Service]"@,
        "Type=simple"@,
    ] + lines_of(rest));
}

/// A unit rendered for an executable whose path is one line has twelve lines: those
/// of [`unit_lines`].
pub proof fn rendered_unit_has_these_lines(exe: Seq<char>)
    requires
        !exe.contains('\n'),
    ensures
        lines_of(unit_text(escaped(exe))) == unit_lines(escaped(exe)),
{
    let value = escaped(exe);
    lemma_escaped_is_one_line(exe);
    let key = "ExecStart="@;
    reveal_strlit("ExecStart=");
    reveal_with_fuel(one_line, 12);
    lemma_one_line_has_no_feed(key, key.len());
    let text = key + value;
    assert(!text.contains('\n')) by {
        if text.contains('\n') {
            let i = choose|i: int| 0 <= i < text.len() && text[i] == '\n';
            if i >= key.len() {
                assert(value[i - key.len()] == '\n');
            }
        }
    }
    let rest = line(text) + unit_tail();
    assert(unit_text(value) =~= unit_head() + rest);
    lemma_head_lines(rest);
    lemma_first_line(text, unit_tail());
    lemma_tail_lines();
    assert(lines_of(unit_text(value)) =~= unit_lines(value));
}

/// Of a unit's lines exactly one is an `ExecStart` line, and each section begins
/// once.
pub proof fn unit_lines_stand_once(value: Seq<char>, i: int)
    requires
        0 <= i < unit_lines(value).len(),
    ensures
        unit_lines(value).len() == 12,
        begins(unit_lines(value)[i], "ExecStart="@) <==> i == 6,
        unit_lines(value)[i] == "[Unit]"@ <==> i == 0,
        unit_lines(value)[i] == "[Service]"@ <==> i == 4,
        unit_lines(value)[i] == "[Install]"@ <==> i == 10,
        unit_lines(value)[i] == "Restart=on-failure"@ <==> i == 7,
        unit_lines(value)[i] == "WantedBy=graphical-session.target"@ <==> i == 11,
{
    reveal_strlit("[Unit]");
    reveal_strlit("Description=OpenLogi background agent (Logitech HID++ device control)");
    reveal_strlit("After=graphical-session.target");
    reveal_strlit("");
    reveal_strlit("[Service]");
    reveal_strlit("Type=simple");
    reveal_strlit("ExecStart=");
    reveal_strlit("Restart=on-failure");
    reveal_strlit("RestartSec=5");
    reveal_strlit("[Install]");
    reveal_strlit("WantedBy=graphical-session.target");
    let lines = unit_lines(value);
    let key = "ExecStart="@;
    let own = key + value;
    assert(own.take(key.len() as int) =~= key);
    assert(own[0] == 'E');
    assert("[Unit]"@[1] == 'U' && "[Service]"@[1] == 'S' && "[Install]"@[1] == 'I');
    if i != 6 && begins(lines[i], key) {
        assert(lines[i].take(key.len() as int)[0] == 'E');
    }
}

/// Two rendered units differ in their `ExecStart` lines only.
pub proof fn units_differ_in_one_line(one: Seq<char>, other: Seq<char>, i: int)
    requires
        !one.contains('\n'),
        !other.contains('\n'),
        0 <= i < 12,
        i != 6,
    ensures
        lines_of(unit_text(escaped(one))).len() == 12,
        lines_of(unit_text(escaped(other))).len() == 12,
        lines_of(unit_text(escaped(one)))[i] == lines_of(unit_text(escaped(other)))[i],
        lines_of(unit_text(escaped(one)))[6] == "ExecStart="@ + escaped(one),
{
    rendered_unit_has_these_lines(one);
    rendered_unit_has_these_lines(other);
}

/// A path that is one line stays one when it is escaped.
proof fn lemma_escaped_is_one_line(exe: Seq<char>)
    requires
        !exe.contains('\n'),
    ensures
        !escaped(exe).contains('\n'),
{
    lemma_doubled_keeps_absence(exe, '\n');
    lemma_quoting_keeps_absence(doubled(exe), '\n');
    let value = escaped(exe);
    if exe.contains(' ') && value.contains('\n') {
        let i = choose|i: int| 0 <= i < value.len() && value[i] == '\n';
        assert(0 < i < value.len() - 1);
        assert(quote_escaped(doubled(exe))[i - 1] == '\n');
    }
}

proof fn lemma_quoting_keeps_absence(chars: Seq<char>, wanted: char)
    requires
        !chars.contains(wanted),
        wanted != '\\',
        wanted != '"',
    ensures
        !quote_escaped(chars).contains(wanted),
    decreases chars.len(),
{
    if chars.len() > 0 {
        let rest = chars.skip(1);
        assert(!rest.contains(wanted)) by {
            if rest.contains(wanted) {
                let i = choose|i: int| 0 <= i < rest.len() && rest[i] == wanted;
                assert(chars[i + 1] == wanted);
            }
        }
        lemma_quoting_keeps_absence(rest, wanted);
        assert(chars[0] != wanted);
        let quoted = quote_escaped(chars);
        let lead: int = if chars[0] == '"' { 2 } else { 1 };
        assert forall|i: int| 0 <= i < quoted.len() implies quoted[i] != wanted by {
            if i >= lead {
                assert(quoted[i] == quote_escaped(rest)[i - lead]);
            }
        }
    }
}

// ── Where the files live ────────────────────────────────────────────────────

/// A base directory: the value of its environment variable where that is an
/// absolute path, else the fallback under the home directory.
pub open spec fn base_directory(
    variable: Option<Seq<char>>,
    home: Option<Seq<char>>,
    fallback: Seq<char>,
) -> Option<Seq<char>> {
    if variable matches Some(path) && path.len() > 0 && path[0] == '/' {
        variable
    } else if home is Some {
        Some(joined(home->0, fallback))
    } else {
        None
    }
}

/// The characters of an optional text.
pub open spec fn text_view(text: Option<&str>) -> Option<Seq<char>> {
    match text {
        Some(text) => Some(text@),
        None => None,
    }
}

/// The characters of an optional owned text.
pub open spec fn string_view(text: Option<String>) -> Option<Seq<char>> {
    match text {
        Some(text) => Some(text@),
        None => None,
    }
}

fn base_dir(variable: Option<&str>, home: Option<&str>, fallback: &str) -> (path: Option<String>)
    ensures
        string_view(path) == base_directory(text_view(variable), text_view(home), fallback@),
{
    if let Some(path) = variable {
        let chars: Vec<char> = chars_of(path);
        if chars.len() > 0 && chars[0] == '/' {
            return Some(path.to_owned());
        }
    }
    match home {
        Some(path) => Some(join_path(path, fallback)),
        None => None,
    }
}

/// The user's configuration directory, from `$XDG_CONFIG_HOME` and `$HOME`.
pub fn xdg_config_home(variable: Option<&str>, home: Option<&str>) -> (path: Option<String>)
    ensures
        string_view(path) == base_directory(text_view(variable), text_view(home), ".config"@),
{
    base_dir(variable, home, ".config")
}

/// The user's data directory, from `$XDG_DATA_HOME` and `$HOME`.
pub fn xdg_data_home(variable: Option<&str>, home: Option<&str>) -> (path: Option<String>)
    ensures
        string_view(path) == base_directory(text_view(variable), text_view(home), ".local/share"@),
{
    base_dir(variable, home, ".local/share")
}

/// The unit's path below a base directory.
pub open spec fn unit_under(base: Seq<char>) -> Seq<char> {
    joined(joined(base, "systemd/user"@), UNIT_NAME@)
}

/// The marker's path below the configuration directory.
pub open spec fn marker_under(config_home: Seq<char>) -> Seq<char> {
    joined(joined(config_home, "openlogi"@), "launch-at-login-enabled"@)
}

fn unit_below(base: &str) -> (path: String)
    ensures
        path@ == unit_under(base@),
{
    let directory: String = join_path(base, "systemd/user");
    join_path(directory.as_str(), UNIT_NAME)
}

/// Where the rendered unit goes: the data tier, which systemd ranks below the
/// user's own configuration, so that a user's unit of that name overrides it.
pub fn generated_unit_path(data_home: &str) -> (path: String)
    ensures
        path@ == unit_under(data_home@),
{
    unit_below(data_home)
}

/// The unit's path in the configuration tier, which outranks every other.
pub fn legacy_unit_path(config_home: &str) -> (path: String)
    ensures
        path@ == unit_under(config_home@),
{
    unit_below(config_home)
}

/// The marker of an enablement that this agent made, as opposed to one that the
/// user made. It lies beside the configuration, not among the units.
pub fn enablement_marker_path(config_home: &str) -> (path: String)
    ensures
        path@ == marker_under(config_home@),
{
    let directory: String = join_path(config_home, "openlogi");
    join_path(directory.as_str(), "launch-at-login-enabled")
}

/// The marker is never the unit's file, in either tier, wherever the two base
/// directories are.
pub proof fn marker_is_never_a_unit(config_home: Seq<char>, base: Seq<char>)
    ensures
        marker_under(config_home) != unit_under(base),
{
    reveal_strlit("openlogi-agent.service");
    reveal_strlit("launch-at-login-enabled");
    assert(marker_under(config_home).last() == 'd');
    assert(unit_under(base).last() == 'e');
}

/// Whether two executables are the same file. A path that resolves is compared
/// by what it resolves to, any other one literally.
pub fn same_executable(
    left: &str,
    left_resolved: Option<&str>,
    right: &str,
    right_resolved: Option<&str>,
) -> (same: bool)
    ensures
        same == ((if left_resolved is Some { left_resolved->0@ } else { left@ }) == (
        if right_resolved is Some { right_resolved->0@ } else { right@ })),
{
    let a: &str = match left_resolved {
        Some(path) => path,
        None => left,
    };
    let b: &str = match right_resolved {
        Some(path) => path,
        None => right,
    };
    same_text(a, b)
}

// ── Reconciling ─────────────────────────────────────────────────────────────

/// One step that brings the autostart state in line with the setting.
#[derive(Debug)]
pub enum ReconcileStep {
    /// Write the unit file, and its directories where they are missing.
    Write(String),
    /// Remove the unit file.
    Remove,
    /// Have systemd read its units again.
    DaemonReload,
    /// Enable the unit.
    Enable,
    /// Disable the unit.
    Disable,
}

/// The steps that the setting calls for, given the text now at the unit's path.
///
/// A unit that is already current is enabled again, since the user may have
/// disabled it. A unit that is not a rendering of this agent's is neither
/// overwritten nor removed.
pub open spec fn is_plan(
    enabled: bool,
    exe: Seq<char>,
    current: Option<Seq<char>>,
    steps: Seq<ReconcileStep>,
) -> bool {
    let want = unit_text(escaped(exe));
    if enabled && current == Some(want) {
        steps == seq![ReconcileStep::Enable]
    } else if enabled && (current is None || is_generated(current->0)) {
        &&& steps.len() == 3
        &&& steps[0] matches ReconcileStep::Write(text) && text@ == want
        &&& steps[1] == ReconcileStep::DaemonReload
        &&& steps[2] == ReconcileStep::Enable
    } else if enabled {
        steps == seq![ReconcileStep::Enable]
    } else if current is None {
        steps == Seq::<ReconcileStep>::empty()
    } else if is_generated(current->0) {
        steps == seq![ReconcileStep::Disable, ReconcileStep::Remove, ReconcileStep::DaemonReload]
    } else {
        steps == seq![ReconcileStep::Disable]
    }
}

/// Decide how to bring the autostart state in line with `enabled`.
pub fn reconcile(enabled: bool, exe: &str, current: Option<&str>) -> (steps: Vec<ReconcileStep>)
    ensures
        is_plan(enabled, exe@, text_view(current), steps@),
{
    let mut steps: Vec<ReconcileStep> = Vec::new();
    let ours: bool = match current {
        Some(text) => is_generated_unit(text),
        None => true,
    };
    if enabled {
        let want: String = render_unit(exe);
        let up_to_date: bool = match current {
            Some(text) => same_text(text, want.as_str()),
            None => false,
        };
        if !up_to_date && ours {
            steps.push(ReconcileStep::Write(want));
            steps.push(ReconcileStep::DaemonReload);
        }
        steps.push(ReconcileStep::Enable);
        assert(steps.len() == 1 ==> steps@ =~= seq![ReconcileStep::Enable]);
    } else if current.is_some() {
        steps.push(ReconcileStep::Disable);
        if ours {
            steps.push(ReconcileStep::Remove);
            steps.push(ReconcileStep::DaemonReload);
            assert(steps@ =~= seq![
                ReconcileStep::Disable,
                ReconcileStep::Remove,
                ReconcileStep::DaemonReload,
            ]);
        } else {
            assert(steps@ =~= seq![ReconcileStep::Disable]);
        }
    }
    steps
}

/// The text at the unit's path after the steps are carried out.
pub open spec fn after_steps(current: Option<Seq<char>>, steps: Seq<ReconcileStep>) -> Option<
    Seq<char>,
>
    decreases steps.len(),
{
    if steps.len() == 0 {
        current
    } else {
        let before = after_steps(current, steps.drop_last());
        match steps.last() {
            ReconcileStep::Write(text) => Some(text@),
            ReconcileStep::Remove => None,
            _ => before,
        }
    }
}

/// Reconciling is idempotent: once its steps are carried out, reconciling the
/// same setting for the same executable touches no file.
pub proof fn reconciling_again_touches_no_file(
    enabled: bool,
    exe: Seq<char>,
    current: Option<Seq<char>>,
    first: Seq<ReconcileStep>,
    second: Seq<ReconcileStep>,
)
    requires
        is_plan(enabled, exe, current, first),
        is_plan(enabled, exe, after_steps(current, first), second),
    ensures
        forall|i: int| 0 <= i < second.len() ==> !(second[i] is Write) && !(second[i] is Remove),
{
    reveal_with_fuel(after_steps, 4);
    if enabled && first.len() == 3 {
        assert(after_steps(current, first) == Some(unit_text(escaped(exe))));
    }
}

/// A unit that this agent did not render is left as it is.
pub proof fn foreign_units_are_left_alone(
    enabled: bool,
    exe: Seq<char>,
    current: Seq<char>,
    steps: Seq<ReconcileStep>,
)
    requires
        is_plan(enabled, exe, Some(current), steps),
        !is_generated(current),
    ensures
        after_steps(Some(current), steps) == Some(current),
{
    reveal_with_fuel(after_steps, 2);
}

/// Arguments of one `systemctl --user` call.
pub struct SystemctlArgsDisplay<'a, 'b>(pub &'a [&'b str]);

/// The words with one space between each two.
pub open spec fn spaced(words: Seq<&str>) -> Seq<char>
    decreases words.len(),
{
    if words.len() == 0 {
        Seq::empty()
    } else if words.len() == 1 {
        words[0]@
    } else {
        spaced(words.drop_last()).push(' ') + words.last()@
    }
}

impl<'a, 'b> SystemctlArgsDisplay<'a, 'b> {
    /// The arguments as they would stand on a command line.
    pub fn to_text(&self) -> (text: String)
        ensures
            text@ == spaced(self.0@),
    {
        let mut text: String = String::new();
        let mut i: usize = 0;
        while i < self.0.len()
            invariant
                i <= self.0@.len(),
                text@ == spaced(self.0@.take(i as int)),
            decreases self.0@.len() - i,
        {
            let ghost shorter = self.0@.take(i as int);
            if i > 0 {
                text.push(' ');
            }
            text.append(self.0[i]);
            i = i + 1;
            proof {
                let longer = self.0@.take(i as int);
                assert(longer.drop_last() =~= shorter);
                assert(longer.last() == self.0@[i - 1]);
                assert(text@ =~= spaced(longer));
            }
        }
        assert(self.0@.take(i as int) =~= self.0@);
        text
    }
}

/// The command that the Windows `Run` key starts at login. The key's values are
/// parsed as command lines, so the path is quoted.
pub fn run_command(exe: &str) -> (command: String)
    ensures
        command@ == (seq!['"'] + exe@).push('"'),
{
    let mut command: String = String::new();
    command.push('"');
    command.append(exe);
    command.push('"');
    assert(command@ =~= (seq!['"'] + exe@).push('"'));
    command
}

/// The path of a hand-written launch agent of an earlier version.
pub open spec fn plist_under(home: Seq<char>, label: Seq<char>) -> Seq<char> {
    joined(joined(home, "Library/LaunchAgents"@), label + ".plist"@)
}

fn plist_path(home: &str, label: &str) -> (path: String)
    ensures
        path@ == plist_under(home@, label@),
{
    let directory: String = join_path(home, "Library/LaunchAgents");
    let mut name: String = label.to_owned();
    name.append(".plist");
    join_path(directory.as_str(), name.as_str())
}

/// The launch agents of earlier versions, which migration removes. Their labels
/// are history and never change with the product's own identifiers.
pub fn legacy_plist_paths(home: &str) -> (paths: Vec<String>)
    ensures
        paths.len() == 2,
        paths[0]@ == plist_under(home@, "org.openlogi.openlogi"@),
        paths[1]@ == plist_under(home@, "org.openlogi.agent"@),
{
    let mut paths: Vec<String> = Vec::new();
    paths.push(plist_path(home, "org.openlogi.openlogi"));
    paths.push(plist_path(home, "org.openlogi.agent"));
    paths
}

// ── Laws ────────────────────────────────────────────────────────────────────

/// Exactly the percent and the dollar sign are doubled, wherever they stand; every other
/// character stays as it is.
pub proof fn percent_and_dollar_are_doubled(before: Seq<char>, c: char)
    ensures
        doubled(before.push(c)) == doubled(before) + (if c == '%' {
            seq!['%', '%']
        } else if c == '$' {
            seq!['$', '$']
        } else {
            seq![c]
        }),
    decreases before.len(),
{
    let whole = before.push(c);
    if before.len() > 0 {
        let rest = before.skip(1);
        assert(whole.skip(1) =~= rest.push(c));
        percent_and_dollar_are_doubled(rest, c);
        assert(doubled(whole) =~= doubled(before) + (if c == '%' {
            seq!['%', '%']
        } else if c == '$' {
            seq!['$', '$']
        } else {
            seq![c]
        }));
    } else {
        assert(whole.skip(1) =~= before);
        assert(doubled(before) =~= Seq::<char>::empty());
        assert(doubled(whole) =~= doubled(before) + (if c == '%' {
            seq!['%', '%']
        } else if c == '$' {
            seq!['$', '$']
        } else {
            seq![c]
        }));
    }
}

/// Exactly the double quotes get a backslash in front of them.
pub proof fn quotes_are_escaped(before: Seq<char>, c: char)
    ensures
        quote_escaped(before.push(c)) == quote_escaped(before) + (if c == '"' {
            seq!['\\', '"']
        } else {
            seq![c]
        }),
    decreases before.len(),
{
    let whole = before.push(c);
    if before.len() > 0 {
        let rest = before.skip(1);
        assert(whole.skip(1) =~= rest.push(c));
        quotes_are_escaped(rest, c);
    } else {
        assert(whole.skip(1) =~= before);
        assert(quote_escaped(before) =~= Seq::<char>::empty());
    }
    assert(quote_escaped(whole) =~= quote_escaped(before) + (if c == '"' {
        seq!['\\', '"']
    } else {
        seq![c]
    }));
}

/// A program path with a space is put between double quotes, and one without a space is
/// not.
pub proof fn spaces_call_for_quotes(program: Seq<char>)
    ensures
        program.contains(' ') ==> {
            let value = escaped(program);
            &&& value.len() >= 2
            &&& value[0] == '"' && value.last() == '"'
            &&& value.subrange(1, value.len() - 1) == quote_escaped(doubled(program))
        },
        !program.contains(' ') ==> escaped(program) == doubled(program),
{
    if program.contains(' ') {
        let value = escaped(program);
        assert(value.subrange(1, value.len() - 1) =~= quote_escaped(doubled(program)));
    }
}

/// Reading a value back drops the arguments behind the program: without quotes those
/// after the first space, with quotes those after the closing one.
pub proof fn arguments_are_dropped(program: Seq<char>, arguments: Seq<char>)
    requires
        !program.contains(' '),
        program.len() > 0 && program[0] != '"',
    ensures
        unescaped(escaped(program) + seq![' '] + arguments) == program,
{
    let value = escaped(program);
    let whole = value + seq![' '] + arguments;
    lemma_doubled_keeps_absence(program, ' ');
    lemma_collapse_undoes_doubling(program);
    assert(value[0] == program[0]);
    assert(whole[0] == value[0]);
    assert forall|i: int| 0 <= i < value.len() implies whole[i] != ' ' by {
        assert(whole[i] == value[i]);
        assert(value.contains(value[i]));
    }
    assert(whole[value.len() as int] == ' ');
    lemma_first_index_is(whole, ' ', value.len() as int);
    assert(whole.take(value.len() as int) =~= value);
}

/// What the steps make of the unit's file. An agent that may start at login has its own
/// unit there, except where somebody else's stands in the way; one that may not has none
/// of its own. Somebody else's is never touched.
pub proof fn steps_bring_the_file_in_line(
    enabled: bool,
    exe: Seq<char>,
    current: Option<Seq<char>>,
    steps: Seq<ReconcileStep>,
)
    requires
        is_plan(enabled, exe, current, steps),
    ensures
        ({
            let after = after_steps(current, steps);
            let foreign = current matches Some(text) && !is_generated(text) && text != unit_text(
                escaped(exe),
            );
            &&& enabled && !foreign ==> after == Some(unit_text(escaped(exe)))
            &&& !enabled && (current is None || is_generated(current->0)) ==> after is None
            &&& !enabled && (current matches Some(text) && !is_generated(text)) ==> after == current
            &&& foreign ==> after == current
        }),
{
    reveal_with_fuel(after_steps, 4);
}

/// What the steps do to the enablement: an agent that may start at login is enabled, last
/// of all, whatever its unit looked like. One that may not is disabled first where it has
/// a unit, and nothing is done where it has none.
pub proof fn steps_bring_the_enablement_in_line(
    enabled: bool,
    exe: Seq<char>,
    current: Option<Seq<char>>,
    steps: Seq<ReconcileStep>,
    at: int,
)
    requires
        is_plan(enabled, exe, current, steps),
    ensures
        enabled ==> steps.len() > 0 && steps.last() == ReconcileStep::Enable,
        enabled && 0 <= at < steps.len() ==> !(steps[at] is Disable) && !(steps[at] is Remove),
        !enabled && current is Some ==> steps.len() > 0 && steps[0] == ReconcileStep::Disable,
        !enabled && current is None ==> steps.len() == 0,
        !enabled && 0 <= at < steps.len() ==> !(steps[at] is Enable) && !(steps[at] is Write),
        0 <= at < steps.len() && (steps[at] is Write || steps[at] is Remove) ==> at + 1
            < steps.len() && steps[at + 1] == ReconcileStep::DaemonReload,
{
}

/// A base directory is the variable's where that is an absolute path, and otherwise lies
/// under the home directory; without either there is none.
pub proof fn base_directories_are_absolute_or_at_home(
    path: Seq<char>,
    home: Seq<char>,
    fallback: Seq<char>,
)
    ensures
        base_directory(Some(seq!['/'] + path), Some(home), fallback) == Some(seq!['/'] + path),
        base_directory(Some(seq!['/'] + path), None, fallback) == Some(seq!['/'] + path),
        path.len() == 0 || path[0] != '/' ==> {
            &&& base_directory(Some(path), Some(home), fallback) == Some(joined(home, fallback))
            &&& base_directory(Some(path), None, fallback) is None
        },
        base_directory(None, Some(home), fallback) == Some(joined(home, fallback)),
        base_directory(None, None, fallback) is None,
{
    assert((seq!['/'] + path)[0] == '/');
}

/// Where the files lie below a base directory that does not end in a separator.
pub proof fn files_lie_below_their_base(base: Seq<char>, label: Seq<char>)
    requires
        base.len() > 0,
        base.last() != '/',
        label.len() > 0,
        label[0] != '/',
    ensures
        unit_under(base) == base + "/systemd/user/openlogi-agent.service"@,
        marker_under(base) == base + "/openlogi/launch-at-login-enabled"@,
        plist_under(base, label) == base + "/Library/LaunchAgents/"@ + label + ".plist"@,
{
    reveal_strlit("openlogi-agent.service");
    reveal_strlit("systemd/user");
    reveal_strlit("/systemd/user/openlogi-agent.service");
    reveal_strlit("openlogi");
    reveal_strlit("launch-at-login-enabled");
    reveal_strlit("/openlogi/launch-at-login-enabled");
    reveal_strlit("Library/LaunchAgents");
    reveal_strlit("/Library/LaunchAgents/");
    reveal_strlit(".plist");
    let units = joined(base, "systemd/user"@);
    assert(units.last() == 'r');
    assert(unit_under(base) =~= base + "/systemd/user/openlogi-agent.service"@);
    let own = joined(base, "openlogi"@);
    assert(own.last() == 'i');
    assert(marker_under(base) =~= base + "/openlogi/launch-at-login-enabled"@);
    let agents = joined(base, "Library/LaunchAgents"@);
    assert(agents.last() == 's');
    assert((label + ".plist"@)[0] == label[0]);
    assert(plist_under(base, label) =~= base + "/Library/LaunchAgents/"@ + label + ".plist"@);
}

/// Words on a command line are put apart by one space each, with none at the ends.
pub proof fn words_are_put_apart(words: Seq<&str>, word: &str)
    ensures
        spaced(Seq::<&str>::empty()).len() == 0,
        words.len() == 0 ==> spaced(words.push(word)) == word@,
        words.len() > 0 ==> spaced(words.push(word)) == spaced(words) + seq![' '] + word@,
{
    assert(words.push(word).drop_last() =~= words);
    assert(words.push(word).last() == word);
    if words.len() > 0 {
        assert(spaced(words.push(word)) =~= spaced(words) + seq![' '] + word@);
    }
}

/// A rendered unit says how the agent runs: for the graphical session, as a simple
/// service of the given program, started again five seconds after a failure and not after
/// a clean exit.
pub proof fn units_say_how_the_agent_runs(exe: Seq<char>)
    requires
        !exe.contains('\n'),
    ensures
        ({
            let lines = lines_of(unit_text(escaped(exe)));
            &&& lines.len() == 12
            &&& lines[0] == "[Unit]"@
            &&& lines[1]
                == "Description=OpenLogi background agent (Logitech HID++ device control)"@
            &&& lines[2] == "After=graphical-session.target"@
            &&& lines[3].len() == 0
            &&& lines[4] == "[Service]"@
            &&& lines[5] == "Type=simple"@
            &&& lines[6] == "ExecStart="@ + escaped(exe)
            &&& lines[7] == "Restart=on-failure"@
            &&& lines[8] == "RestartSec=5"@
            &&& lines[9].len() == 0
            &&& lines[10] == "[Install]"@
            &&& lines[11] == "WantedBy=graphical-session.target"@
        }),
{
    rendered_unit_has_these_lines(exe);
    reveal_strlit("");
}

/// An optional text is seen by its characters.
pub proof fn optional_texts_are_seen(text: &str, owned: String)
    ensures
        text_view(Some(text)) == Some(text@),
        text_view(None) is None,
        string_view(Some(owned)) == Some(owned@),
        string_view(None) is None,
{
}

/// Every `ExecStart` line of a unit gives its value, in order, and no other line gives
/// one. A unit without such a line, or with more than one, starts nothing.
pub proof fn exec_lines_give_their_values(text: Seq<char>, rest: Seq<char>)
    requires
        !text.contains('\n'),
    ensures
        exec_values(line("ExecStart="@ + text) + rest) == seq![text] + exec_values(rest),
        !begins(text, "ExecStart="@) ==> exec_values(line(text) + rest) == exec_values(rest),
        exec_values(Seq::empty()).len() == 0,
        exec_values(rest).len() == 0 ==> exec_start(rest) is None,
        exec_values(rest).len() == 1 ==> exec_start(rest) == Some(exec_values(rest)[0]),
        exec_values(rest).len() > 1 ==> exec_start(rest) is None,
{
    reveal_strlit("ExecStart=");
    reveal_with_fuel(one_line, 12);
    let key = "ExecStart="@;
    lemma_one_line_has_no_feed(key, key.len());
    let whole = key + text;
    assert(!whole.contains('\n')) by {
        if whole.contains('\n') {
            let i = choose|i: int| 0 <= i < whole.len() && whole[i] == '\n';
            if i >= key.len() {
                assert(text[i - key.len()] == '\n');
            }
        }
    }
    assert(whole.take(key.len() as int) =~= key);
    assert(whole.skip(key.len() as int) =~= text);
    lemma_one_line(whole, rest);
    lemma_one_line(text, rest);
}

/// A quoted value reads back as its program, whatever arguments follow the closing quote.
pub proof fn quoted_programs_read_back(program: Seq<char>, arguments: Seq<char>)
    requires
        program.contains(' '),
        program.last() != '\\',
    ensures
        unescaped(escaped(program) + arguments) == program,
{
    let twice = doubled(program);
    let value = escaped(program);
    let whole = value + arguments;
    lemma_collapse_undoes_doubling(program);
    lemma_doubled_last(program);
    assert(whole[0] == '"');
    assert(whole.skip(1) =~= quote_escaped(twice).push('"') + arguments);
    lemma_quoted_body_stops(twice, arguments);
}

proof fn lemma_quoted_body_stops(chars: Seq<char>, arguments: Seq<char>)
    requires
        chars.len() > 0 ==> chars.last() != '\\',
    ensures
        quoted_body(quote_escaped(chars).push('"') + arguments) == chars,
    decreases chars.len(),
{
    let quoted = quote_escaped(chars).push('"') + arguments;
    if chars.len() > 0 {
        let rest = chars.skip(1);
        if rest.len() > 0 {
            assert(rest.last() == chars.last());
        }
        lemma_quoted_body_stops(rest, arguments);
        let tail = quote_escaped(rest).push('"') + arguments;
        if chars[0] == '"' {
            assert(quoted.skip(2) =~= tail);
            assert(quoted_body(quoted) =~= seq!['"'] + quoted_body(tail));
        } else {
            assert(quoted.skip(1) =~= tail);
            assert(quoted[0] == chars[0]);
            if chars[0] == '\\' {
                assert(rest.len() > 0);
                assert(quoted[1] == tail[0]);
                if rest[0] == '"' {
                    assert(quote_escaped(rest)[0] == '\\');
                } else {
                    assert(quote_escaped(rest)[0] == rest[0]);
                }
                assert(quoted[1] != '"');
            }
            assert(quoted_body(quoted) =~= seq![chars[0]] + quoted_body(tail));
        }
        assert(seq![chars[0]] + rest =~= chars);
    } else {
        assert(quoted[0] == '"');
        assert(quoted_body(quoted) =~= chars);
    }
}

/// A word without anything to escape reads back as it is.
pub proof fn plain_words_read_back(word: Seq<char>)
    requires
        forall|i: int|
            0 <= i < word.len() ==> #[trigger] word[i] != ' ' && word[i] != '"' && word[i] != '%'
                && word[i] != '$',
    ensures
        unescaped(word) == word,
        escaped(word) == word,
{
    lemma_nothing_doubled(word);
    lemma_collapse_undoes_doubling(word);
    lemma_first_index_is(word, ' ', word.len() as int);
    assert(word.take(word.len() as int) =~= word);
    assert(!word.contains(' '));
}

proof fn lemma_nothing_doubled(word: Seq<char>)
    requires
        forall|i: int| 0 <= i < word.len() ==> #[trigger] word[i] != '%' && word[i] != '$',
    ensures
        doubled(word) == word,
    decreases word.len(),
{
    if word.len() > 0 {
        let rest = word.skip(1);
        assert(forall|i: int| 0 <= i < rest.len() ==> #[trigger] rest[i] == word[i + 1]);
        lemma_nothing_doubled(rest);
        assert(doubled(word) =~= word);
    }
}

} // verus!
