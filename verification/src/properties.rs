//! Properties as one text: each name and its value with a mark behind either.
use vstd::prelude::*;

use crate::message::{prop, props, put};
use crate::table::{ascending, lists_domain, Table};
use crate::text::{chars_of, find, find_from, free_of, lemma_find_mark, lemma_pieces_front, pieces, split, texts};

verus! {

/// Behind the name of a property.
pub const NAME_VALUE_SEPARATOR: &'static str = "\u{1}";

/// Behind the value of a property.
pub const PROPERTY_SEPARATOR: &'static str = "\u{2}";

/// One property as text.
pub open spec fn entry(name: Seq<char>, value: Seq<char>) -> Seq<char> {
    name + NAME_VALUE_SEPARATOR@ + value + PROPERTY_SEPARATOR@
}

/// The properties with the names `keys`, as one text.
pub open spec fn wire_text(keys: Seq<Seq<char>>, m: Map<Seq<char>, Seq<char>>) -> Seq<char>
    decreases keys.len(),
{
    if keys.len() == 0 {
        Seq::empty()
    } else {
        entry(keys[0], m[keys[0]]) + wire_text(keys.subrange(1, keys.len() as int), m)
    }
}

/// What one piece of a text says: a name and a value, where it has the mark between them.
pub open spec fn piece_entry(s: Seq<char>) -> Option<(Seq<char>, Seq<char>)> {
    let i = find_from(s, NAME_VALUE_SEPARATOR@, 0);
    if i < 0 {
        None
    } else {
        Some((s.subrange(0, i), s.subrange(i + 1, s.len() as int)))
    }
}

/// The properties that pieces of text hold; of two with one name, the later.
pub open spec fn pieces_props(parts: Seq<Seq<char>>) -> Map<Seq<char>, Seq<char>>
    decreases parts.len(),
{
    if parts.len() == 0 {
        Map::empty()
    } else {
        let before = pieces_props(parts.drop_last());
        match piece_entry(parts.last()) {
            Some((name, value)) => before.insert(name, value),
            None => before,
        }
    }
}

/// The properties that a text holds.
pub open spec fn text_props(s: Seq<char>) -> Map<Seq<char>, Seq<char>> {
    pieces_props(pieces(s, PROPERTY_SEPARATOR@))
}

proof fn lemma_wire_push(keys: Seq<Seq<char>>, k: Seq<char>, m: Map<Seq<char>, Seq<char>>)
    ensures
        wire_text(keys.push(k), m) == wire_text(keys, m) + entry(k, m[k]),
    decreases keys.len(),
{
    if keys.len() == 0 {
        reveal_with_fuel(wire_text, 2);
        assert(keys.push(k).subrange(1, 1) =~= Seq::<Seq<char>>::empty());
        assert(wire_text(keys.push(k), m) =~= entry(k, m[k]));
    } else {
        let rest = keys.subrange(1, keys.len() as int);
        assert(keys.push(k).subrange(1, keys.len() as int + 1) =~= rest.push(k));
        lemma_wire_push(rest, k, m);
        assert(wire_text(keys.push(k), m) =~= wire_text(keys, m) + entry(k, m[k]));
    }
}

/// Properties as one text, in the order of their names.
pub fn message_properties_2_string(t: &Table<String>) -> (r: String)
    ensures
        r@ == wire_text(t.order(), props(*t)),
        t.listed(),
{
    let n = t.len();
    let mut out = String::new();
    let mut i: usize = 0;
    while i < n
        invariant
            i <= n == t.order().len(),
            t.listed(),
            out@ == wire_text(t.order().subrange(0, i as int), props(*t)),
        decreases n - i,
    {
        let ghost before = t.order().subrange(0, i as int);
        let ghost k = t.order()[i as int];
        let ghost start = out@;
        out.append(t.key_at(i).as_str());
        out.append(NAME_VALUE_SEPARATOR);
        out.append(t.value_at(i).as_str());
        out.append(PROPERTY_SEPARATOR);
        proof {
            lemma_wire_push(before, k, props(*t));
            assert(t.order().subrange(0, i + 1) =~= before.push(k));
            assert(props(*t)[k] == t@[k]@);
            assert(out@ =~= start + entry(k, props(*t)[k]));
        }
        i = i + 1;
    }
    assert(t.order().subrange(0, i as int) =~= t.order());
    out
}

/// The properties that a text holds.
pub fn string_2_message_properties(s: &str) -> (r: Table<String>)
    ensures
        props(r) == text_props(s@),
{
    let parts = split(s, PROPERTY_SEPARATOR);
    let mark = chars_of(NAME_VALUE_SEPARATOR);
    let mut out: Table<String> = Table::new();
    let mut i: usize = 0;
    assert(props(out) =~= Map::<Seq<char>, Seq<char>>::empty());
    proof {
        reveal_strlit("\u{1}");
    }
    while i < parts.len()
        invariant
            i <= parts@.len(),
            mark@ == NAME_VALUE_SEPARATOR@,
            mark@.len() == 1,
            props(out) == pieces_props(texts(parts@).subrange(0, i as int)),
        decreases parts@.len() - i,
    {
        proof {
            let p = texts(parts@).subrange(0, i + 1);
            assert(p.drop_last() =~= texts(parts@).subrange(0, i as int));
            assert(p.last() == parts@[i as int]@);
        }
        let piece = parts[i].as_str();
        let cs = chars_of(piece);
        if let Some(at) = find(&cs, &mark, 0) {
            let name = piece.substring_char(0, at);
            let value = piece.substring_char(at + 1, cs.len()).to_owned();
            put(&mut out, name, value);
        }
        i = i + 1;
    }
    assert(texts(parts@).subrange(0, i as int) =~= texts(parts@));
    out
}

proof fn lemma_props_front(p: Seq<char>, rest: Seq<Seq<char>>)
    ensures
        pieces_props(seq![p] + rest) == match piece_entry(p) {
            Some((k, v)) => if pieces_props(rest).dom().contains(k) {
                pieces_props(rest)
            } else {
                pieces_props(rest).insert(k, v)
            },
            None => pieces_props(rest),
        },
    decreases rest.len(),
{
    let all = seq![p] + rest;
    if rest.len() == 0 {
        assert(all.drop_last() =~= Seq::<Seq<char>>::empty());
        assert(all.last() == p);
        assert(pieces_props(all.drop_last()) =~= Map::<Seq<char>, Seq<char>>::empty());
        assert(pieces_props(rest) =~= Map::<Seq<char>, Seq<char>>::empty());
    } else {
        lemma_props_front(p, rest.drop_last());
        assert(all.drop_last() =~= seq![p] + rest.drop_last());
        assert(all.last() == rest.last());
        match piece_entry(p) {
            Some((k, v)) => {
                match piece_entry(rest.last()) {
                    Some((k2, v2)) => {
                        let r = pieces_props(rest.drop_last());
                        if k2 == k {
                            assert(r.insert(k, v).insert(k2, v2) =~= r.insert(k2, v2));
                        } else {
                            assert(r.insert(k, v).insert(k2, v2) =~= r.insert(k2, v2).insert(k, v));
                        }
                    },
                    None => {},
                }
            },
            None => {},
        }
    }
}

/// No name and no value holds a mark.
pub open spec fn unmarked(m: Map<Seq<char>, Seq<char>>) -> bool {
    forall|k: Seq<char>| #[trigger]
        m.dom().contains(k) ==> free_of(k, '\u{1}') && free_of(k, '\u{2}') && free_of(m[k], '\u{2}')
}

proof fn lemma_round_trip(keys: Seq<Seq<char>>, m: Map<Seq<char>, Seq<char>>)
    requires
        ascending(keys),
        unmarked(m),
        forall|i: int| 0 <= i < keys.len() ==> m.dom().contains(#[trigger] keys[i]),
    ensures
        forall|k: Seq<char>|
            text_props(wire_text(keys, m)).dom().contains(k) <==> #[trigger] keys.contains(k),
        forall|k: Seq<char>| #[trigger] keys.contains(k) ==> text_props(wire_text(keys, m))[k] == m[k],
    decreases keys.len(),
{
    reveal_strlit("\u{1}");
    reveal_strlit("\u{2}");
    let sep = seq!['\u{2}'];
    assert(PROPERTY_SEPARATOR@ =~= sep);
    assert(NAME_VALUE_SEPARATOR@ =~= seq!['\u{1}']);
    let whole = wire_text(keys, m);
    if keys.len() == 0 {
        reveal_with_fuel(pieces_props, 2);
        assert(find_from(whole, sep, 0) == -1);
        let ps = pieces(whole, sep);
        assert(ps =~= seq![whole]);
        assert(ps.drop_last() =~= Seq::<Seq<char>>::empty());
        assert(find_from(whole, NAME_VALUE_SEPARATOR@, 0) == -1);
        assert(piece_entry(ps.last()) is None);
        assert(text_props(whole) =~= Map::<Seq<char>, Seq<char>>::empty());
    } else {
        let k0 = keys[0];
        let v0 = m[k0];
        let rest_keys = keys.subrange(1, keys.len() as int);
        let rest = wire_text(rest_keys, m);
        let head = k0 + seq!['\u{1}'] + v0;
        assert(whole =~= head + sep + rest);
        assert(free_of(head, '\u{2}')) by {
            assert(m.dom().contains(k0));
            assert forall|i: int| 0 <= i < head.len() implies #[trigger] head[i] != '\u{2}' by {
                if i < k0.len() {
                    assert(head[i] == k0[i]);
                } else if i > k0.len() {
                    assert(head[i] == v0[i - k0.len() - 1]);
                }
            }
        }
        lemma_pieces_front(head, rest, '\u{2}');
        lemma_props_front(head, pieces(rest, sep));
        lemma_find_mark(k0, v0, '\u{1}', 0);
        assert(head.subrange(0, k0.len() as int) =~= k0);
        assert(head.subrange(k0.len() as int + 1, head.len() as int) =~= v0);
        assert forall|i: int| 0 <= i < rest_keys.len() implies m.dom().contains(#[trigger] rest_keys[i]) by {
            assert(rest_keys[i] == keys[i + 1]);
        }
        lemma_round_trip(rest_keys, m);
        assert(!rest_keys.contains(k0)) by {
            if rest_keys.contains(k0) {
                let i = rest_keys.index_of(k0);
                assert(keys[i + 1] == k0);
                crate::text::lemma_before_irreflexive(k0);
            }
        }
        assert(text_props(whole) == text_props(rest).insert(k0, v0));
        assert forall|k: Seq<char>|
            text_props(whole).dom().contains(k) <==> #[trigger] keys.contains(k) by {
            lemma_head_or_rest(keys, k);
        }
        assert forall|k: Seq<char>| #[trigger] keys.contains(k) implies text_props(whole)[k] == m[k] by {
            lemma_head_or_rest(keys, k);
        }
    }
}

proof fn lemma_head_or_rest(keys: Seq<Seq<char>>, k: Seq<char>)
    requires
        keys.len() > 0,
    ensures
        keys.contains(k) <==> (k == keys[0] || keys.subrange(1, keys.len() as int).contains(k)),
{
    let rest = keys.subrange(1, keys.len() as int);
    if keys.contains(k) && k != keys[0] {
        let i = keys.index_of(k);
        assert(rest[i - 1] == k);
    }
    if rest.contains(k) {
        let i = rest.index_of(k);
        assert(keys[i + 1] == k);
    }
    if k == keys[0] {
        assert(keys.contains(k));
    }
}

/// Properties that were written as text are read from it as they were, where no name and no
/// value holds a mark. (A value may hold the mark of a name: only the first counts.)
pub proof fn law_properties_round_trip(keys: Seq<Seq<char>>, m: Map<Seq<char>, Seq<char>>)
    requires
        lists_domain(keys, m),
        unmarked(m),
    ensures
        text_props(wire_text(keys, m)) == m,
{
    assert forall|i: int| 0 <= i < keys.len() implies m.dom().contains(#[trigger] keys[i]) by {
        assert(keys.contains(keys[i]));
    }
    lemma_round_trip(keys, m);
    let back = text_props(wire_text(keys, m));
    assert forall|k: Seq<char>| #[trigger] back.dom().contains(k) <==> m.dom().contains(k) by {
        assert(keys.contains(k) <==> m.dom().contains(k));
    }
    assert forall|k: Seq<char>| #[trigger] m.dom().contains(k) implies back[k] == m[k] by {
        assert(keys.contains(k));
    }
    assert(text_props(wire_text(keys, m)) =~= m);
}

/// Properties that travel as text are read from it as they were, each with its value and no
/// other. (Names and values that hold a mark are left out.)
pub proof fn law_properties_survive_the_wire(t: &Table<String>, text: String, s: &str, back: Table<String>, name: Seq<char>)
    requires
        call_ensures(message_properties_2_string, (t,), text),
        s@ == text@,
        call_ensures(string_2_message_properties, (s,), back),
        unmarked(props(*t)),
    ensures
        prop(back, name) == prop(*t, name),
{
    assert forall|k: Seq<char>| #[trigger] t.order().contains(k) <==> props(*t).dom().contains(k) by {
        assert(props(*t).dom().contains(k) == t@.dom().contains(k));
    }
    law_properties_round_trip(t.order(), props(*t));
    assert(props(back) == props(*t));
    assert(props(back).dom().contains(name) == props(*t).dom().contains(name));
    if props(back).dom().contains(name) {
        assert(props(back)[name] == props(*t)[name]);
    }
}

} // verus!
