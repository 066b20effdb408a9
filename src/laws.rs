//! What holds of the stored text across several operations.
use vstd::prelude::*;
use crate::entries::{
    after_line, count_entries, drop_entries, entry_line, find_value, is_entry, lemma_line_len_bound,
    line_len, lines, lookup, prefix_of, render, rewritten, rewritten_lines,
};
use crate::error::EnvError;
use crate::session::{fails_with, transition, Action, Event, Session, Stage};
use crate::shell::{init_file_of, locate};

verus! {

/// `s` holds no `'\n'`.
pub open spec fn single_line(s: Seq<char>) -> bool {
    forall|i: int| 0 <= i < s.len() ==> s[i] != '\n'
}

/// `s` holds no `'='`.
pub open spec fn no_equals(s: Seq<char>) -> bool {
    forall|i: int| 0 <= i < s.len() ==> s[i] != '='
}

proof fn lemma_line_len_of_render(a: Seq<char>, b: Seq<char>)
    requires
        single_line(a),
    ensures
        line_len(a + seq!['\n'] + b) == a.len(),
    decreases a.len(),
{
    let t = a + seq!['\n'] + b;
    if a.len() == 0 {
        assert(t[0] == '\n');
    } else {
        assert(t[0] == a[0]);
        assert(t.drop_first() =~= a.drop_first() + seq!['\n'] + b);
        lemma_line_len_of_render(a.drop_first(), b);
    }
}

proof fn lemma_lines_of_render(ls: Seq<Seq<char>>)
    requires
        forall|i: int| 0 <= i < ls.len() ==> single_line(#[trigger] ls[i]),
    ensures
        lines(render(ls)) == ls,
    decreases ls.len(),
{
    if ls.len() > 0 {
        let rest = render(ls.drop_first());
        let t = ls[0] + seq!['\n'] + rest;
        assert(single_line(ls[0]));
        lemma_line_len_of_render(ls[0], rest);
        assert(t.take(ls[0].len() as int) =~= ls[0]);
        assert(t.skip(ls[0].len() + 1int) =~= rest);
        lemma_lines_of_render(ls.drop_first());
        assert(lines(t) =~= ls);
    } else {
        assert(lines(render(ls)) =~= ls);
    }
}

proof fn lemma_lines_single(t: Seq<char>)
    ensures
        forall|i: int| 0 <= i < lines(t).len() ==> single_line(#[trigger] lines(t)[i]),
    decreases t.len(),
{
    if t.len() > 0 {
        lemma_line_len_bound(t);
        lemma_lines_single(after_line(t));
        let ls = lines(t);
        assert forall|i: int| 0 <= i < ls.len() implies single_line(#[trigger] ls[i]) by {
            if i > 0 {
                assert(ls[i] == lines(after_line(t))[i - 1]);
            }
        }
    }
}

proof fn lemma_drop_concat(a: Seq<Seq<char>>, b: Seq<Seq<char>>, key: Seq<char>)
    ensures
        drop_entries(a + b, key) == drop_entries(a, key) + drop_entries(b, key),
        count_entries(a + b, key) == count_entries(a, key) + count_entries(b, key),
        find_value(a + b, key) == if find_value(a, key) is Some {
            find_value(a, key)
        } else {
            find_value(b, key)
        },
    decreases a.len(),
{
    if a.len() == 0 {
        assert(a + b =~= b);
    } else {
        assert((a + b).drop_first() =~= a.drop_first() + b);
        assert((a + b)[0] == a[0]);
        lemma_drop_concat(a.drop_first(), b, key);
        if !is_entry(a[0], key) {
            assert(seq![a[0]] + drop_entries(a.drop_first(), key) + drop_entries(b, key)
                =~= seq![a[0]] + (drop_entries(a.drop_first(), key) + drop_entries(b, key)));
        }
    }
}

proof fn lemma_dropped(ls: Seq<Seq<char>>, key: Seq<char>)
    ensures
        find_value(drop_entries(ls, key), key) is None,
        count_entries(drop_entries(ls, key), key) == 0,
        drop_entries(drop_entries(ls, key), key) == drop_entries(ls, key),
    decreases ls.len(),
{
    if ls.len() > 0 {
        lemma_dropped(ls.drop_first(), key);
        if !is_entry(ls[0], key) {
            let d = drop_entries(ls.drop_first(), key);
            assert((seq![ls[0]] + d).drop_first() =~= d);
            assert((seq![ls[0]] + d)[0] == ls[0]);
        }
    }
}

proof fn lemma_drop_other(ls: Seq<Seq<char>>, key: Seq<char>, other: Seq<char>)
    requires
        forall|i: int| 0 <= i < ls.len() ==> !(is_entry(#[trigger] ls[i], key) && is_entry(ls[i], other)),
    ensures
        find_value(drop_entries(ls, key), other) == find_value(ls, other),
    decreases ls.len(),
{
    if ls.len() > 0 {
        assert(!(is_entry(ls[0], key) && is_entry(ls[0], other)));
        assert forall|i: int| 0 <= i < ls.drop_first().len() implies !(is_entry(
            #[trigger] ls.drop_first()[i],
            key,
        ) && is_entry(ls.drop_first()[i], other)) by {
            assert(ls.drop_first()[i] == ls[i + 1]);
        }
        lemma_drop_other(ls.drop_first(), key, other);
        if !is_entry(ls[0], key) {
            let d = drop_entries(ls.drop_first(), key);
            assert((seq![ls[0]] + d).drop_first() =~= d);
            assert((seq![ls[0]] + d)[0] == ls[0]);
        }
    }
}

/// Two different keys without `=` never share an entry line.
proof fn lemma_entries_disjoint(line: Seq<char>, key: Seq<char>, other: Seq<char>)
    requires
        key != other,
        no_equals(key),
        no_equals(other),
    ensures
        !(is_entry(line, key) && is_entry(line, other)),
{
    if is_entry(line, key) && is_entry(line, other) {
        let p = prefix_of(key);
        let q = prefix_of(other);
        if key.len() < other.len() {
            assert(p[key.len() + 7int] == line[key.len() + 7int]);
            assert(q[key.len() + 7int] == line[key.len() + 7int]);
            assert(q[key.len() + 7int] == other[key.len() as int]);
        } else if other.len() < key.len() {
            assert(p[other.len() + 7int] == line[other.len() + 7int]);
            assert(q[other.len() + 7int] == line[other.len() + 7int]);
            assert(p[other.len() + 7int] == key[other.len() as int]);
        } else {
            assert forall|i: int| 0 <= i < key.len() implies key[i] == other[i] by {
                assert(p[i + 7] == line[i + 7]);
                assert(q[i + 7] == line[i + 7]);
            }
            assert(key =~= other);
        }
    }
}

/// The lines of the stored text after a rewrite are exactly the lines it was built from.
proof fn lemma_lines_of_rewritten(text: Seq<char>, key: Seq<char>, value: Seq<char>)
    requires
        single_line(key),
        single_line(value),
    ensures
        lines(rewritten(text, key, value)) == rewritten_lines(text, key, value),
{
    let d = drop_entries(lines(text), key);
    lemma_lines_single(text);
    assert forall|i: int| 0 <= i < d.len() implies single_line(#[trigger] d[i]) by {
        lemma_drop_keeps_lines(lines(text), key, i);
    }
    let e = entry_line(key, value);
    assert(single_line(e)) by {
        assert forall|i: int| 0 <= i < e.len() implies e[i] != '\n' by {
            if i < 7 {
            } else if i < 7 + key.len() {
                assert(e[i] == key[i - 7]);
            } else if i == 7 + key.len() {
            } else {
                assert(e[i] == value[i - 8 - key.len()]);
            }
        }
    }
    let ls = rewritten_lines(text, key, value);
    assert forall|i: int| 0 <= i < ls.len() implies single_line(#[trigger] ls[i]) by {
        if i < d.len() {
            assert(ls[i] == d[i]);
        } else {
            assert(ls[i] == e);
        }
    }
    lemma_lines_of_render(ls);
}

proof fn lemma_drop_keeps_lines(ls: Seq<Seq<char>>, key: Seq<char>, i: int)
    requires
        forall|j: int| 0 <= j < ls.len() ==> single_line(#[trigger] ls[j]),
        0 <= i < drop_entries(ls, key).len(),
    ensures
        single_line(drop_entries(ls, key)[i]),
    decreases ls.len(),
{
    if ls.len() > 0 {
        let d = drop_entries(ls.drop_first(), key);
        assert forall|j: int| 0 <= j < ls.drop_first().len() implies single_line(
            #[trigger] ls.drop_first()[j],
        ) by {
            assert(ls.drop_first()[j] == ls[j + 1]);
        }
        if is_entry(ls[0], key) {
            lemma_drop_keeps_lines(ls.drop_first(), key, i);
        } else if i > 0 {
            assert((seq![ls[0]] + d)[i] == d[i - 1]);
            lemma_drop_keeps_lines(ls.drop_first(), key, i - 1);
        } else {
            assert(single_line(ls[0]));
        }
    }
}

/// Storing a non-empty single-line `value` under `key` and reading `key` back
/// gives `value`.
pub proof fn set_then_get(text: Seq<char>, key: Seq<char>, value: Seq<char>)
    requires
        single_line(key),
        single_line(value),
        value.len() > 0,
    ensures
        lookup(rewritten(text, key, value), key) == Some(value),
{
    lemma_lines_of_rewritten(text, key, value);
    let d = drop_entries(lines(text), key);
    let e = entry_line(key, value);
    lemma_dropped(lines(text), key);
    lemma_drop_concat(d, seq![e], key);
    assert(prefix_of(key).is_prefix_of(e)) by {
        assert(e.subrange(0, prefix_of(key).len() as int) =~= prefix_of(key));
    }
    assert(seq![e].drop_first() =~= Seq::<Seq<char>>::empty());
    assert(e.skip(prefix_of(key).len() as int) =~= value);
}

/// After a rewrite the text holds one entry of `key` when `value` is not
/// empty, and none when it is.
pub proof fn one_entry_per_key(text: Seq<char>, key: Seq<char>, value: Seq<char>)
    requires
        single_line(key),
        single_line(value),
    ensures
        count_entries(lines(rewritten(text, key, value)), key) == if value.len() > 0 {
            1nat
        } else {
            0nat
        },
{
    lemma_lines_of_rewritten(text, key, value);
    let d = drop_entries(lines(text), key);
    let e = entry_line(key, value);
    lemma_dropped(lines(text), key);
    if value.len() > 0 {
        lemma_drop_concat(d, seq![e], key);
        assert(prefix_of(key).is_prefix_of(e)) by {
            assert(e.subrange(0, prefix_of(key).len() as int) =~= prefix_of(key));
        }
        assert(seq![e].drop_first() =~= Seq::<Seq<char>>::empty());
        assert(seq![e][0] == e);
        assert(count_entries(seq![e].drop_first(), key) == 0);
        assert(count_entries(seq![e], key) == 1);
    } else {
        assert(d + Seq::<Seq<char>>::empty() =~= d);
    }
}

/// Storing a value under `key` and then a non-empty single-line `second`:
/// `key` reads `second` and the text holds one entry of `key`.
pub proof fn overwrite_keeps_last(text: Seq<char>, key: Seq<char>, first: Seq<char>, second: Seq<char>)
    requires
        single_line(key),
        single_line(first),
        single_line(second),
        second.len() > 0,
    ensures
        lookup(rewritten(rewritten(text, key, first), key, second), key) == Some(second),
        count_entries(lines(rewritten(rewritten(text, key, first), key, second)), key) == 1,
{
    set_then_get(rewritten(text, key, first), key, second);
    one_entry_per_key(rewritten(text, key, first), key, second);
}

/// Storing the empty value removes `key`: reading it back finds nothing.
pub proof fn empty_value_removes(text: Seq<char>, key: Seq<char>)
    ensures
        lookup(rewritten(text, key, Seq::empty()), key) is None,
{
    let d = drop_entries(lines(text), key);
    lemma_lines_single(text);
    assert forall|i: int| 0 <= i < d.len() implies single_line(#[trigger] d[i]) by {
        lemma_drop_keeps_lines(lines(text), key, i);
    }
    assert(rewritten_lines(text, key, Seq::empty()) =~= d);
    lemma_lines_of_render(d);
    lemma_dropped(lines(text), key);
}

/// Removing `key` twice leaves the same text as removing it once, and `key`
/// reads as absent.
pub proof fn remove_twice(text: Seq<char>, key: Seq<char>)
    ensures
        rewritten(rewritten(text, key, Seq::empty()), key, Seq::empty()) == rewritten(
            text,
            key,
            Seq::empty(),
        ),
        lookup(rewritten(rewritten(text, key, Seq::empty()), key, Seq::empty()), key) is None,
{
    let d = drop_entries(lines(text), key);
    lemma_lines_single(text);
    assert forall|i: int| 0 <= i < d.len() implies single_line(#[trigger] d[i]) by {
        lemma_drop_keeps_lines(lines(text), key, i);
    }
    assert(rewritten_lines(text, key, Seq::empty()) =~= d);
    lemma_lines_of_render(d);
    lemma_dropped(lines(text), key);
    assert(rewritten_lines(rewritten(text, key, Seq::empty()), key, Seq::empty()) =~= drop_entries(d, key));
    empty_value_removes(rewritten(text, key, Seq::empty()), key);
}

/// Storing or removing `key` leaves every other key's value as it was, and
/// every line that is not an entry of `key` as it was, in the same order.
pub proof fn other_keys_untouched(text: Seq<char>, key: Seq<char>, value: Seq<char>, other: Seq<char>)
    requires
        key != other,
        no_equals(key),
        no_equals(other),
        single_line(key),
        single_line(value),
    ensures
        lookup(rewritten(text, key, value), other) == lookup(text, other),
        drop_entries(lines(rewritten(text, key, value)), key) == drop_entries(lines(text), key),
{
    lemma_lines_of_rewritten(text, key, value);
    let ls = lines(text);
    let d = drop_entries(ls, key);
    let tail = if value.len() > 0 {
        seq![entry_line(key, value)]
    } else {
        Seq::<Seq<char>>::empty()
    };
    assert forall|i: int| 0 <= i < ls.len() implies !(is_entry(#[trigger] ls[i], key) && is_entry(
        ls[i],
        other,
    )) by {
        lemma_entries_disjoint(ls[i], key, other);
    }
    lemma_drop_other(ls, key, other);
    lemma_drop_concat(d, tail, other);
    lemma_drop_concat(d, tail, key);
    lemma_dropped(ls, key);
    if value.len() > 0 {
        let e = entry_line(key, value);
        lemma_entries_disjoint(e, key, other);
        assert(prefix_of(key).is_prefix_of(e)) by {
            assert(e.subrange(0, prefix_of(key).len() as int) =~= prefix_of(key));
        }
        assert(tail.drop_first() =~= Seq::<Seq<char>>::empty());
        assert(tail[0] == e);
        assert(drop_entries(tail.drop_first(), key) == Seq::<Seq<char>>::empty());
        assert(find_value(tail.drop_first(), other) is None);
        assert(drop_entries(tail, key) =~= Seq::<Seq<char>>::empty());
        assert(find_value(tail, other) is None);
    }
    assert(d + drop_entries(tail, key) =~= d);
}

/// A shell without a known start-up file is refused with
/// [`EnvError::ShellError`] once `HOME` and `SHELL` are known: the operation
/// ends there, before any file is read or written.
pub proof fn unsupported_shell_refused(
    before: Session,
    home: String,
    shell: String,
    after: Session,
    a: Action,
)
    requires
        init_file_of(shell@) is None,
        transition(before, Event::HomeAndShell(Some(home), Some(shell)), after, a),
    ensures
        locate(Some(home@), Some(shell@)) == Err::<Seq<char>, EnvError>(EnvError::ShellError),
        after.stage == Stage::Done,
        fails_with(a, EnvError::ShellError),
{
}

} // verus!
