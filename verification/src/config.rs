//! The settings file: one `key=value` a line, `#` before a comment.

use crate::assoc;
use crate::text;
use crate::text_map;
use crate::text_map::TextMap;
use vstd::prelude::*;

verus! {

/// The settings file's name. It stands next to the executable.
pub const CONFIG_FILE: &'static str = "neardesk.conf";

/// The comment that a saved settings file starts with.
pub const HEADER: &'static str = "# NearDesk settings\n";

// ---------------------------------------------------------------------------
// Reading
// ---------------------------------------------------------------------------

/// The key and the value that a line of the file sets: none if the line is
/// blank, is a comment or has no `=`.
pub open spec fn setting(line: Seq<char>) -> Option<(Seq<char>, Seq<char>)> {
    let l = text::trimmed(line);
    if l.len() == 0 || l[0] == '#' {
        None
    } else {
        match text::split_at_first(l, '=') {
            Some((k, v)) => Some((text::trimmed(k), text::trimmed(v))),
            None => None,
        }
    }
}

/// What the lines of a file set; of two settings of one key the later counts.
pub open spec fn settings(lines: Seq<Seq<char>>) -> Map<Seq<char>, Seq<char>>
    decreases lines.len(),
{
    if lines.len() == 0 {
        Map::empty()
    } else {
        let before = settings(lines.drop_last());
        match setting(lines.last()) {
            Some((k, v)) => before.insert(k, v),
            None => before,
        }
    }
}

/// What a file with the contents `t` sets.
pub open spec fn loaded(t: Seq<char>) -> Map<Seq<char>, Seq<char>> {
    settings(text::lines_of(t))
}

fn read_setting<'a>(line: &'a str) -> (r: Option<(&'a str, &'a str)>)
    ensures
        match r {
            Some((k, v)) => setting(line@) == Some((k@, v@)),
            None => setting(line@) is None,
        },
{
    let l = text::trim(line);
    if l.is_empty() || l.get_char(0) == '#' {
        return None;
    }
    match text::split_once(l, '=') {
        Some((k, v)) => Some((text::trim(k), text::trim(v))),
        None => None,
    }
}

/// The settings in the file, whose contents are given; none if it could not be
/// read.
pub fn load_config(contents: Option<&str>) -> (r: TextMap)
    ensures
        match contents {
            Some(s) => r@ == loaded(s@),
            None => r@ == Map::<Seq<char>, Seq<char>>::empty(),
        },
{
    let mut m = TextMap::new();
    let s = match contents {
        Some(s) => s,
        None => {
            return m;
        },
    };
    let lines = text::lines(s);
    let ghost all = text::slices(lines@);
    proof {
        assert(all.take(0) =~= seq![]);
    }
    for i in 0..lines.len()
        invariant
            all == text::slices(lines@),
            m@ == settings(all.take(i as int)),
    {
        proof {
            assert(all.take(i + 1).drop_last() =~= all.take(i as int));
            assert(all.take(i + 1).last() == lines[i as int]@);
        }
        match read_setting(lines[i]) {
            Some((k, v)) => {
                m.insert(k, v);
            },
            None => {},
        }
    }
    proof {
        assert(all.take(lines.len() as int) =~= all);
    }
    m
}

// ---------------------------------------------------------------------------
// Writing
// ---------------------------------------------------------------------------

/// The line for one setting, with its line feed.
pub open spec fn setting_line(k: Seq<char>, v: Seq<char>) -> Seq<char> {
    k + seq!['='] + v + seq!['\n']
}

/// The lines for the settings `e`, in order.
pub open spec fn setting_lines(e: text_map::Entries) -> Seq<char>
    decreases e.len(),
{
    if e.len() == 0 {
        seq![]
    } else {
        setting_lines(e.drop_last()) + setting_line(e.last().0, e.last().1)
    }
}

/// The contents of a file that holds the settings `e`.
pub open spec fn saved(e: text_map::Entries) -> Seq<char> {
    HEADER@ + setting_lines(e)
}

/// The contents of the file for the settings `m`.
pub fn save_config(m: &TextMap) -> (r: String)
    ensures
        r@ == saved(m.entries()),
        assoc::distinct_keys(m.entries()),
{
    let mut s = HEADER.to_string();
    let n = m.len();
    let ghost e = m.entries();
    proof {
        assert(e.take(0) =~= text_map::Entries::empty());
        assert(HEADER@ + setting_lines(e.take(0)) =~= HEADER@);
        reveal_strlit("=");
        reveal_strlit("\n");
        assert("="@ =~= seq!['=']);
        assert("\n"@ =~= seq!['\n']);
    }
    for i in 0..n
        invariant
            e == m.entries(),
            n == e.len(),
            s@ == HEADER@ + setting_lines(e.take(i as int)),
            "="@ == seq!['='],
            "\n"@ == seq!['\n'],
    {
        let (k, v) = m.entry(i);
        s.append(k);
        s.append("=");
        s.append(v);
        s.append("\n");
        proof {
            assert(e.take(i + 1).drop_last() =~= e.take(i as int));
            assert(s@ =~= HEADER@ + setting_lines(e.take(i + 1)));
        }
    }
    proof {
        assert(e.take(n as int) =~= e);
    }
    s
}

// ---------------------------------------------------------------------------
// Laws
// ---------------------------------------------------------------------------

/// A key and a value that one line of the file can hold: no line feed in
/// either, no white space at their ends, and a key without `=` that does not
/// start a comment.
pub open spec fn storable(k: Seq<char>, v: Seq<char>) -> bool {
    &&& !k.contains('\n') && !v.contains('\n')
    &&& text::is_trimmed(k) && text::is_trimmed(v)
    &&& !k.contains('=')
    &&& k.len() > 0 ==> k[0] != '#'
}

/// Every setting of `m` can be held by the file.
pub open spec fn all_storable(m: Map<Seq<char>, Seq<char>>) -> bool {
    forall|k: Seq<char>| #[trigger] m.contains_key(k) ==> storable(k, m[k])
}

proof fn lemma_find_absent(t: Seq<char>, c: char, rest: Seq<char>)
    requires
        !t.contains(c),
        rest.len() > 0 && rest[0] == c,
    ensures
        text::find(t + rest, c) == t.len(),
{
    let whole = t + rest;
    assert forall|j: int| 0 <= j < t.len() implies #[trigger] whole[j] != c by {
        assert(whole[j] == t[j]);
    }
    text::lemma_find_is(whole, c, t.len() as int);
}

/// The line for a storable setting sets it.
proof fn lemma_setting_line(k: Seq<char>, v: Seq<char>)
    requires
        storable(k, v),
    ensures
        setting(k + seq!['='] + v) == Some((k, v)),
        !(k + seq!['='] + v).contains('\n'),
{
    let line = k + seq!['='] + v;
    assert(line.len() == k.len() + 1 + v.len());
    assert(line[0] == if k.len() > 0 { k[0] } else { '=' });
    assert(line.last() == if v.len() > 0 { v.last() } else { '=' });
    text::lemma_trimmed_fixed(line);
    text::lemma_trimmed_fixed(k);
    text::lemma_trimmed_fixed(v);
    assert(line =~= k + (seq!['='] + v));
    lemma_find_absent(k, '=', seq!['='] + v);
    assert(line.take(k.len() as int) =~= k);
    assert(line.skip(k.len() as int + 1) =~= v);
    if line.contains('\n') {
        let i = choose|i: int| 0 <= i < line.len() && line[i] == '\n';
        if i < k.len() {
            assert(k[i] == '\n');
        } else if i > k.len() {
            assert(v[i - k.len() - 1] == '\n');
        }
    }
}

/// A line put in front of a text is its first line.
proof fn lemma_lines_front(line: Seq<char>, rest: Seq<char>)
    requires
        !line.contains('\n'),
    ensures
        text::lines_of(line + seq!['\n'] + rest) == seq![text::without_return(line)]
            + text::lines_of(rest),
{
    let t = line + seq!['\n'] + rest;
    assert(t =~= line + (seq!['\n'] + rest));
    lemma_find_absent(line, '\n', seq!['\n'] + rest);
    assert(t.take(line.len() as int) =~= line);
    assert(t.skip(line.len() as int + 1) =~= rest);
}

/// Lines put behind a text that ends in a line feed are its last lines.
proof fn lemma_lines_back(t: Seq<char>, rest: Seq<char>)
    requires
        t.len() > 0 ==> t.last() == '\n',
    ensures
        text::lines_of(t + rest) == text::lines_of(t) + text::lines_of(rest),
    decreases t.len(),
{
    if t.len() == 0 {
        assert(t + rest =~= rest);
        assert(text::lines_of(t) + text::lines_of(rest) =~= text::lines_of(rest));
    } else {
        text::lemma_find(t, '\n');
        let n = text::find(t, '\n');
        assert(n < t.len()) by {
            if n == t.len() {
                assert(t[t.len() - 1] != '\n');
            }
        }
        let line = t.take(n);
        let tail = t.skip(n + 1);
        assert(!line.contains('\n'));
        assert(tail.len() > 0 ==> tail.last() == '\n');
        lemma_lines_back(tail, rest);
        lemma_lines_front(line, tail);
        lemma_lines_front(line, tail + rest);
        assert(t =~= line + seq!['\n'] + tail);
        assert(t + rest =~= line + seq!['\n'] + (tail + rest));
        assert(text::lines_of(t + rest) =~= text::lines_of(t) + text::lines_of(rest));
    }
}

proof fn lemma_settings_push(lines: Seq<Seq<char>>, line: Seq<char>)
    ensures
        settings(lines + seq![line]) == match setting(line) {
            Some((k, v)) => settings(lines).insert(k, v),
            None => settings(lines),
        },
{
    assert((lines + seq![line]).drop_last() =~= lines);
}

/// Trimming does not care about a carriage return at the end.
proof fn lemma_setting_without_return(line: Seq<char>)
    ensures
        setting(text::without_return(line)) == setting(line),
{
    if line.len() > 0 && line.last() == '\r' {
        let cut = line.drop_last();
        lemma_trimmed_push_space(cut, '\r');
        assert(line =~= cut.push('\r'));
    }
}

proof fn lemma_trimmed_push_space(t: Seq<char>, c: char)
    requires
        text::is_white_space(c),
    ensures
        text::trimmed(t.push(c)) == text::trimmed(t),
{
    let u = t.push(c);
    text::lemma_indent(t);
    let a = text::indent(t);
    if a < t.len() {
        text::lemma_indent_is(u, a);
        assert(u.skip(a) =~= t.skip(a).push(c));
        assert(t.skip(a).push(c).drop_last() =~= t.skip(a));
    } else {
        assert forall|j: int| 0 <= j < u.len() implies text::is_white_space(#[trigger] u[j]) by {
            if j < t.len() {
                assert(t[j] == u[j]);
            }
        }
        text::lemma_indent_is(u, u.len() as int);
        assert(u.skip(u.len() as int) =~= t.skip(a));
    }
}

/// The lines for the settings `e` end in a line feed and set just `e`.
proof fn lemma_setting_lines(e: text_map::Entries)
    requires
        assoc::distinct_keys(e),
        all_storable(assoc::map_of(e)),
    ensures
        setting_lines(e).len() > 0 ==> setting_lines(e).last() == '\n',
        settings(text::lines_of(setting_lines(e))) == assoc::map_of(e),
    decreases e.len(),
{
    if e.len() == 0 {
        assert(assoc::map_of(e) =~= Map::empty());
    } else {
        let f = e.drop_last();
        let (k, v) = e.last();
        assert(f.push((k, v)) =~= e);
        assert(assoc::distinct_keys(f));
        assert(!assoc::map_of(f).contains_key(k)) by {
            if assoc::map_of(f).contains_key(k) {
                let i = choose|i: int| assoc::is_entry(f, k, i);
                assert(f[i] == e[i]);
                assert(e[i].0 != e[e.len() - 1].0);
            }
        }
        assoc::lemma_map_of_push(f, k, v);
        assoc::lemma_map_of(e, e.len() - 1);
        assert forall|x: Seq<char>| #[trigger]
            assoc::map_of(f).contains_key(x) implies storable(x, assoc::map_of(f)[x]) by {
            assert(assoc::map_of(e).contains_key(x));
        }
        lemma_setting_lines(f);
        let line = k + seq!['='] + v;
        lemma_setting_line(k, v);
        let old = setting_lines(f);
        lemma_lines_back(old, setting_line(k, v));
        lemma_lines_front(line, seq![]);
        assert(setting_line(k, v) =~= line + seq!['\n'] + seq![]);
        assert(text::lines_of(setting_line(k, v)) =~= seq![text::without_return(line)]);
        lemma_setting_without_return(line);
        lemma_settings_push(text::lines_of(old), text::without_return(line));
    }
}

/// What a load reads from a saved file is what was saved, just when the file can
/// hold every setting.
pub proof fn law_load_reads_back_save(e: text_map::Entries)
    requires
        assoc::distinct_keys(e),
    ensures
        loaded(saved(e)) == assoc::map_of(e) <==> all_storable(assoc::map_of(e)),
{
    law_loaded_is_storable(saved(e));
    if all_storable(assoc::map_of(e)) {
        lemma_saved(e);
    }
}

/// Saving what was loaded and loading it again changes nothing.
pub proof fn law_reload_changes_nothing(t: Seq<char>, e: text_map::Entries)
    requires
        assoc::distinct_keys(e),
        assoc::map_of(e) == loaded(t),
    ensures
        loaded(saved(e)) == loaded(t),
{
    law_loaded_is_storable(t);
    law_load_reads_back_save(e);
}

proof fn lemma_saved(e: text_map::Entries)
    requires
        assoc::distinct_keys(e),
        all_storable(assoc::map_of(e)),
    ensures
        loaded(saved(e)) == assoc::map_of(e),
{
    reveal_strlit("# NearDesk settings\n");
    let comment = HEADER@.drop_last();
    let lines = setting_lines(e);
    lemma_setting_lines(e);
    assert(!comment.contains('\n'));
    assert(saved(e) =~= comment + seq!['\n'] + lines);
    lemma_lines_front(comment, lines);
    assert(text::without_return(comment) =~= comment);
    text::lemma_trimmed_fixed(comment);
    assert(setting(comment) is None);
    lemma_settings_front(comment, text::lines_of(lines));
}

/// A line that sets nothing can be put in front of others.
proof fn lemma_settings_front(line: Seq<char>, lines: Seq<Seq<char>>)
    requires
        setting(line) is None,
    ensures
        settings(seq![line] + lines) == settings(lines),
    decreases lines.len(),
{
    let all = seq![line] + lines;
    if lines.len() == 0 {
        assert(all.drop_last() =~= lines);
    } else {
        lemma_settings_front(line, lines.drop_last());
        assert(all.drop_last() =~= seq![line] + lines.drop_last());
        assert(all.last() == lines.last());
    }
}

/// Whatever the file contains, a load gives settings that the file can hold.
pub proof fn law_loaded_is_storable(t: Seq<char>)
    ensures
        all_storable(loaded(t)),
{
    lemma_lines_have_no_feed(t);
    lemma_settings_storable(text::lines_of(t));
}

proof fn lemma_lines_have_no_feed(t: Seq<char>)
    ensures
        forall|i: int|
            0 <= i < text::lines_of(t).len() ==> !(#[trigger] text::lines_of(t)[i]).contains('\n'),
    decreases t.len(),
{
    if t.len() > 0 {
        text::lemma_find(t, '\n');
        let n = text::find(t, '\n');
        if n < t.len() {
            let line = t.take(n);
            let cut = text::without_return(line);
            let rest = t.skip(n + 1);
            lemma_lines_have_no_feed(rest);
            assert(!cut.contains('\n')) by {
                if cut.contains('\n') {
                    let i = choose|i: int| 0 <= i < cut.len() && cut[i] == '\n';
                    assert(t[i] == '\n');
                }
            }
            assert(text::lines_of(t) == seq![cut] + text::lines_of(rest));
        } else {
            assert(text::lines_of(t) == seq![t]);
        }
    }
}

proof fn lemma_subrange_lacks(t: Seq<char>, a: int, b: int, c: char)
    requires
        0 <= a <= b <= t.len(),
        !t.contains(c),
    ensures
        !t.subrange(a, b).contains(c),
{
    let s = t.subrange(a, b);
    if s.contains(c) {
        let i = choose|i: int| 0 <= i < s.len() && s[i] == c;
        assert(t[a + i] == c);
    }
}

proof fn lemma_setting_storable(line: Seq<char>)
    requires
        !line.contains('\n'),
    ensures
        match setting(line) {
            Some((k, v)) => storable(k, v),
            None => true,
        },
{
    let l = text::trimmed(line);
    let (a, b) = text::lemma_trimmed(line);
    lemma_subrange_lacks(line, a, b, '\n');
    if let Some((k, v)) = setting(line) {
        text::lemma_find(l, '=');
        let n = text::find(l, '=');
        let key = l.subrange(0, n);
        let value = l.subrange(n + 1, l.len() as int);
        assert(l.take(n) =~= key);
        assert(l.skip(n + 1) =~= value);
        lemma_subrange_lacks(l, 0, n, '\n');
        lemma_subrange_lacks(l, n + 1, l.len() as int, '\n');
        assert(!key.contains('='));
        let (ka, kb) = text::lemma_trimmed(key);
        let (va, vb) = text::lemma_trimmed(value);
        lemma_subrange_lacks(key, ka, kb, '\n');
        lemma_subrange_lacks(key, ka, kb, '=');
        lemma_subrange_lacks(value, va, vb, '\n');
        if key.len() > 0 {
            // The line does not start with white space, so neither does the key.
            assert(key[0] == l[0]);
            if ka > 0 {
                assert(text::is_white_space(key[0]));
            }
            if k.len() > 0 {
                assert(k[0] == l[0]);
            }
        }
    }
}

proof fn lemma_settings_storable(lines: Seq<Seq<char>>)
    requires
        forall|i: int| 0 <= i < lines.len() ==> !(#[trigger] lines[i]).contains('\n'),
    ensures
        all_storable(settings(lines)),
    decreases lines.len(),
{
    if lines.len() > 0 {
        assert forall|i: int| 0 <= i < lines.drop_last().len() implies !(
        #[trigger] lines.drop_last()[i]).contains('\n') by {
            assert(lines.drop_last()[i] == lines[i]);
        }
        lemma_settings_storable(lines.drop_last());
        lemma_setting_storable(lines.last());
        let before = settings(lines.drop_last());
        assert forall|k: Seq<char>| #[trigger] settings(lines).contains_key(k) implies storable(
            k,
            settings(lines)[k],
        ) by {
            if before.contains_key(k) {
                assert(storable(k, before[k]));
            }
        }
    }
}

/// A line `key=value` sets the key to the value and leaves every other setting as
/// the lines before it have it. The key is what stands before the first `=`. Lines
/// that start with `#` and lines without `=` set nothing, and white space around a
/// line does not matter.
pub proof fn law_a_line_sets_its_key(
    t: Seq<char>,
    k: Seq<char>,
    v: Seq<char>,
    before: Seq<char>,
    after: Seq<char>,
)
    requires
        t.len() > 0 ==> t.last() == '\n',
        !k.contains('\n') && !v.contains('\n') && !k.contains('='),
        k.len() > 0 ==> !text::is_white_space(k[0]) && !text::is_white_space(k.last()) && k[0]
            != '#',
        v.len() > 0 ==> !text::is_white_space(v[0]) && !text::is_white_space(v.last()),
        forall|j: int|
            0 <= j < before.len() ==> text::is_white_space(#[trigger] before[j]) && before[j]
                != '\n',
        forall|j: int|
            0 <= j < after.len() ==> text::is_white_space(#[trigger] after[j]) && after[j] != '\n',
    ensures
        loaded(t + (k + seq!['='] + v) + seq!['\n']) == loaded(t).insert(k, v),
        loaded(t + (before + (k + seq!['='] + v) + after) + seq!['\n']) == loaded(t).insert(k, v),
        loaded(t + (seq!['#'] + k + seq!['='] + v) + seq!['\n']) == loaded(t),
        loaded(t + k + seq!['\n']) == loaded(t),
        loaded(seq![]) == Map::<Seq<char>, Seq<char>>::empty(),
{
    let line = k + seq!['='] + v;
    lemma_setting_line(k, v);
    lemma_loaded_push(t, line);
    let blanks = before + line + after;
    assert(line[0] == if k.len() > 0 {
        k[0]
    } else {
        '='
    });
    assert(line.last() == if v.len() > 0 {
        v.last()
    } else {
        '='
    });
    text::law_white_space_around_does_not_matter(before, line, after);
    text::lemma_trimmed_fixed(line);
    if blanks.contains('\n') {
        let i = choose|i: int| 0 <= i < blanks.len() && blanks[i] == '\n';
        if i < before.len() {
            assert(before[i] == '\n');
        } else if i < before.len() + line.len() {
            assert(line[i - before.len()] == '\n');
        } else {
            assert(after[i - before.len() - line.len()] == '\n');
        }
    }
    lemma_loaded_push(t, blanks);
    let comment = seq!['#'] + k + seq!['='] + v;
    assert(comment =~= seq!['#'] + line);
    if comment.contains('\n') {
        let i = choose|i: int| 0 <= i < comment.len() && comment[i] == '\n';
        assert(line[i - 1] == '\n');
    }
    assert(comment.last() == line.last());
    text::lemma_trimmed_fixed(comment);
    lemma_loaded_push(t, comment);
    text::lemma_trimmed_fixed(k);
    text::law_split_at_the_first(k, '=', seq![]);
    lemma_loaded_push(t, k);
}

proof fn lemma_loaded_push(t: Seq<char>, line: Seq<char>)
    requires
        t.len() > 0 ==> t.last() == '\n',
        !line.contains('\n'),
    ensures
        loaded(t + line + seq!['\n']) == match setting(line) {
            Some((k, v)) => loaded(t).insert(k, v),
            None => loaded(t),
        },
{
    let end = line + seq!['\n'];
    lemma_lines_back(t, end);
    lemma_lines_front(line, seq![]);
    assert(end =~= line + seq!['\n'] + seq![]);
    assert(t + line + seq!['\n'] =~= t + end);
    assert(text::lines_of(end) =~= seq![text::without_return(line)]);
    lemma_setting_without_return(line);
    lemma_settings_push(text::lines_of(t), text::without_return(line));
}

/// A saved file starts with a comment and has one line for each setting, which is
/// the key, `=`, and the value to the letter.
pub proof fn law_each_setting_is_a_line(e: text_map::Entries, k: Seq<char>, v: Seq<char>)
    ensures
        saved(e.push((k, v))) == saved(e) + (k + seq!['='] + v) + seq!['\n'],
        saved(seq![])[0] == '#',
        saved(seq![]).last() == '\n',
        loaded(saved(seq![])) == Map::<Seq<char>, Seq<char>>::empty(),
{
    reveal_strlit("# NearDesk settings\n");
    let none = text_map::Entries::empty();
    assert(e.push((k, v)).drop_last() =~= e);
    assert(saved(e.push((k, v))) =~= saved(e) + (k + seq!['='] + v) + seq!['\n']);
    assert(saved(none) =~= HEADER@);
    assert(assoc::map_of(none) =~= Map::<Seq<char>, Seq<char>>::empty());
    lemma_saved(none);
}

} // verus!
