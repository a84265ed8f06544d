//! The pseudocode as lines: each type's block is a `struct` line followed by
//! lines that begin with a tab, `};` or nothing, so the pseudocode of a
//! registry has exactly one `struct` line per type.

use vstd::prelude::*;

use crate::engine::ebex::{ObjectInfo, ObjectInfoRegistry};
use crate::engine::pseudocode::{
    spec_concat, spec_function_line, spec_function_lines, spec_property_line, spec_property_lines,
    spec_pseudocode, spec_struct_text,
};
use crate::text::spec_starts_with;

verus! {

/// The text of `lines`, each followed by a line break.
pub open spec fn spec_with_breaks(lines: Seq<Seq<char>>) -> Seq<char> {
    spec_concat(lines.map_values(|l: Seq<char>| l + "\n"@))
}

/// The lines of `blocks`, block after block.
pub open spec fn spec_flatten_lines(blocks: Seq<Seq<Seq<char>>>) -> Seq<Seq<char>>
    decreases blocks.len(),
{
    if blocks.len() == 0 {
        Seq::empty()
    } else {
        spec_flatten_lines(blocks.drop_last()) + blocks.last()
    }
}

/// The number of `lines` that begin with `p`.
pub open spec fn count_starting(lines: Seq<Seq<char>>, p: Seq<char>) -> nat
    decreases lines.len(),
{
    if lines.len() == 0 {
        0
    } else {
        count_starting(lines.drop_last(), p) + if spec_starts_with(lines.last(), p) {
            1nat
        } else {
            0nat
        }
    }
}

/// The header of a type's block: `struct`, its name and ` : ` with its base
/// type if it has one.
pub open spec fn spec_struct_header(o: ObjectInfo) -> Seq<char> {
    "struct "@ + o.name@ + (match o.base_type {
        Some(b) => " : "@ + b@,
        None => Seq::empty(),
    })
}

/// The lines of a type's block, without their line breaks: the header with
/// ` { }` and an empty line for a type without properties and functions;
/// else the header with ` {`, its property lines, an empty line where
/// functions follow properties, its function lines, `};` and an empty line.
pub open spec fn spec_struct_lines(o: ObjectInfo) -> Seq<Seq<char>> {
    let props = o.properties.properties.entries@.len();
    let funcs = o.functions.entries@.len();
    if props == 0 && funcs == 0 {
        seq![spec_struct_header(o) + " { }"@, Seq::<char>::empty()]
    } else {
        seq![spec_struct_header(o) + " {"@] + o.properties.properties.entries@.map_values(
            |e: (String, crate::engine::ebex::ObjectProperty)| spec_property_line(e.1).drop_last(),
        ) + (if props > 0 && funcs > 0 {
            seq![Seq::<char>::empty()]
        } else {
            Seq::empty()
        }) + o.functions.entries@.map_values(
            |e: (String, crate::engine::ebex::ObjectFunction)| spec_function_line(e.1).drop_last(),
        ) + seq!["};"@, Seq::<char>::empty()]
    }
}

/// The lines of the pseudocode of a registry, type after type.
pub open spec fn spec_pseudocode_lines(registry: ObjectInfoRegistry) -> Seq<Seq<char>> {
    spec_flatten_lines(
        registry.elements.entries@.map_values(|e: (String, ObjectInfo)| spec_struct_lines(e.1)),
    )
}

proof fn lemma_concat_append(a: Seq<Seq<char>>, b: Seq<Seq<char>>)
    ensures
        spec_concat(a + b) == spec_concat(a) + spec_concat(b),
    decreases b.len(),
{
    if b.len() == 0 {
        assert(a + b =~= a);
        assert(spec_concat(a) + spec_concat(b) =~= spec_concat(a));
    } else {
        lemma_concat_append(a, b.drop_last());
        assert((a + b).drop_last() =~= a + b.drop_last());
        assert((a + b).last() == b.last());
        assert(spec_concat(a) + spec_concat(b.drop_last()) + b.last() =~= spec_concat(a) + (spec_concat(
            b.drop_last(),
        ) + b.last()));
    }
}

proof fn lemma_with_breaks_append(a: Seq<Seq<char>>, b: Seq<Seq<char>>)
    ensures
        spec_with_breaks(a + b) == spec_with_breaks(a) + spec_with_breaks(b),
{
    let f = |l: Seq<char>| l + "\n"@;
    assert((a + b).map_values(f) =~= a.map_values(f) + b.map_values(f));
    lemma_concat_append(a.map_values(f), b.map_values(f));
}

proof fn lemma_count_append(a: Seq<Seq<char>>, b: Seq<Seq<char>>, p: Seq<char>)
    ensures
        count_starting(a + b, p) == count_starting(a, p) + count_starting(b, p),
    decreases b.len(),
{
    if b.len() == 0 {
        assert(a + b =~= a);
    } else {
        lemma_count_append(a, b.drop_last(), p);
        assert((a + b).drop_last() =~= a + b.drop_last());
        assert((a + b).last() == b.last());
    }
}

proof fn lemma_count_none(lines: Seq<Seq<char>>, p: Seq<char>)
    requires
        forall|i: int| 0 <= i < lines.len() ==> !spec_starts_with(#[trigger] lines[i], p),
    ensures
        count_starting(lines, p) == 0,
    decreases lines.len(),
{
    if lines.len() > 0 {
        assert(!spec_starts_with(lines[lines.len() - 1], p));
        lemma_count_none(lines.drop_last(), p);
    }
}

/// A line that ends with a line break is its text followed by the break.
proof fn lemma_line_break(l: Seq<char>)
    requires
        l.len() > 0,
        l.last() == '\n',
    ensures
        l.drop_last() + "\n"@ == l,
{
    reveal_strlit("\n");
    assert(l.drop_last() + "\n"@ =~= l);
}

/// Two lines with their breaks.
proof fn lemma_with_breaks_two(a: Seq<char>, b: Seq<char>)
    ensures
        spec_with_breaks(seq![a, b]) == a + "\n"@ + b + "\n"@,
{
    let f = |l: Seq<char>| l + "\n"@;
    let m = seq![a, b].map_values(f);
    assert(m =~= seq![a + "\n"@, b + "\n"@]);
    assert(m.drop_last() =~= seq![a + "\n"@]);
    let e = m.drop_last().drop_last();
    assert(e =~= Seq::<Seq<char>>::empty());
    assert(spec_concat(e) =~= Seq::<char>::empty());
    assert(m.drop_last().last() == a + "\n"@);
    assert(spec_concat(m.drop_last()) =~= a + "\n"@);
    assert(spec_concat(m) =~= a + "\n"@ + b + "\n"@);
}

/// One line with its break.
proof fn lemma_with_breaks_one(a: Seq<char>)
    ensures
        spec_with_breaks(seq![a]) == a + "\n"@,
{
    let f = |l: Seq<char>| l + "\n"@;
    let m = seq![a].map_values(f);
    assert(m =~= seq![a + "\n"@]);
    assert(m.drop_last() =~= Seq::<Seq<char>>::empty());
    assert(spec_concat(m.drop_last()) =~= Seq::<char>::empty());
    assert(m.last() == a + "\n"@);
    assert(spec_concat(m) =~= a + "\n"@);
}

/// Lines given as texts with their breaks make up the same text.
proof fn lemma_lines_text<T>(items: Seq<T>, line: spec_fn(T) -> Seq<char>)
    requires
        forall|i: int| 0 <= i < items.len() ==> (#[trigger] line(items[i])).drop_last() + "\n"@ == line(items[i]),
    ensures
        spec_concat(items.map_values(line)) == spec_with_breaks(items.map_values(|t: T| line(t).drop_last())),
{
    assert(items.map_values(line) =~= items.map_values(|t: T| line(t).drop_last()).map_values(
        |l: Seq<char>| l + "\n"@,
    ));
}

/// The text of a type's block is its lines, each followed by a line break.
#[verifier::rlimit(60)]
proof fn lemma_struct_text_lines(o: ObjectInfo)
    ensures
        spec_struct_text(o) == spec_with_breaks(spec_struct_lines(o)),
{
    reveal_strlit("\n");
    reveal_strlit(");\n");
    reveal_strlit(" { }\n\n");
    reveal_strlit(" { }");
    reveal_strlit(" {\n");
    reveal_strlit(" {");
    reveal_strlit("};\n\n");
    reveal_strlit("};");
    let props = o.properties.properties.entries@;
    let funcs = o.functions.entries@;
    let head = spec_struct_header(o);
    if props.len() == 0 && funcs.len() == 0 {
        lemma_with_breaks_two(head + " { }"@, Seq::<char>::empty());
        assert(spec_with_breaks(spec_struct_lines(o)) =~= head + " { }"@ + "\n"@ + "\n"@);
        assert(" { }\n\n"@ =~= " { }"@ + "\n"@ + "\n"@);
        assert(spec_struct_text(o) =~= head + " { }\n\n"@);
    } else {
        let pl = |e: (String, crate::engine::ebex::ObjectProperty)| spec_property_line(e.1);
        let fl = |e: (String, crate::engine::ebex::ObjectFunction)| spec_function_line(e.1);
        assert forall|i: int| 0 <= i < props.len() implies (#[trigger] pl(props[i])).drop_last() + "\n"@ == pl(
            props[i],
        ) by {
            let l = spec_property_line(props[i].1);
            assert(l.last() == '\n');
            lemma_line_break(l);
        }
        assert forall|i: int| 0 <= i < funcs.len() implies (#[trigger] fl(funcs[i])).drop_last() + "\n"@ == fl(
            funcs[i],
        ) by {
            let l = spec_function_line(funcs[i].1);
            assert(l.last() == '\n');
            lemma_line_break(l);
        }
        lemma_lines_text(props, pl);
        lemma_lines_text(funcs, fl);
        let plines = props.map_values(|t: (String, crate::engine::ebex::ObjectProperty)| pl(t).drop_last());
        let flines = funcs.map_values(|t: (String, crate::engine::ebex::ObjectFunction)| fl(t).drop_last());
        let mid: Seq<Seq<char>> = if props.len() > 0 && funcs.len() > 0 {
            seq![Seq::<char>::empty()]
        } else {
            Seq::empty()
        };
        assert(plines =~= props.map_values(
            |e: (String, crate::engine::ebex::ObjectProperty)| spec_property_line(e.1).drop_last(),
        ));
        assert(flines =~= funcs.map_values(
            |e: (String, crate::engine::ebex::ObjectFunction)| spec_function_line(e.1).drop_last(),
        ));
        assert(spec_property_lines(o) == spec_concat(props.map_values(pl)));
        assert(spec_function_lines(o) == spec_concat(funcs.map_values(fl)));
        let open = seq![head + " {"@];
        let close = seq!["};"@, Seq::<char>::empty()];
        assert(spec_struct_lines(o) == open + plines + mid + flines + close);
        lemma_with_breaks_append(open + plines + mid + flines, close);
        lemma_with_breaks_append(open + plines + mid, flines);
        lemma_with_breaks_append(open + plines, mid);
        lemma_with_breaks_append(open, plines);
        lemma_with_breaks_one(head + " {"@);
        lemma_with_breaks_two("};"@, Seq::<char>::empty());
        assert(spec_with_breaks(open) =~= head + " {"@ + "\n"@);
        assert(spec_with_breaks(close) =~= "};"@ + "\n"@ + "\n"@);
        if props.len() > 0 && funcs.len() > 0 {
            lemma_with_breaks_one(Seq::<char>::empty());
        } else {
            assert(spec_with_breaks(mid) =~= Seq::<char>::empty());
        }
        assert(spec_with_breaks(mid) =~= if props.len() > 0 && funcs.len() > 0 {
            "\n"@
        } else {
            Seq::empty()
        });
        assert(" {\n"@ =~= " {"@ + "\n"@);
        assert("};\n\n"@ =~= "};"@ + "\n"@ + "\n"@);
        assert(spec_struct_text(o) =~= spec_with_breaks(spec_struct_lines(o)));
    }
}

/// Exactly one line of a type's block begins with `struct `.
proof fn lemma_struct_lines_count(o: ObjectInfo)
    ensures
        count_starting(spec_struct_lines(o), "struct "@) == 1,
{
    reveal_strlit("struct ");
    reveal_strlit(" { }");
    reveal_strlit(" {");
    reveal_strlit("};");
    reveal_strlit("\t");
    reveal_strlit(");\n");
    reveal_strlit("\n");
    let p = "struct "@;
    let head = spec_struct_header(o);
    assert(spec_starts_with(head + " { }"@, p)) by {
        assert((head + " { }"@).take(7) =~= p);
    }
    assert(spec_starts_with(head + " {"@, p)) by {
        assert((head + " {"@).take(7) =~= p);
    }
    assert(!spec_starts_with(Seq::<char>::empty(), p));
    assert(!spec_starts_with("};"@, p));
    let props = o.properties.properties.entries@;
    let funcs = o.functions.entries@;
    if props.len() == 0 && funcs.len() == 0 {
        let ls = seq![head + " { }"@, Seq::<char>::empty()];
        assert(ls.drop_last() =~= seq![head + " { }"@]);
        assert(ls.drop_last().drop_last() =~= Seq::<Seq<char>>::empty());
        assert(count_starting(Seq::<Seq<char>>::empty(), p) == 0);
        assert(ls.drop_last().last() == head + " { }"@);
        assert(count_starting(ls.drop_last(), p) == 1);
        assert(ls.last() == Seq::<char>::empty());
        assert(count_starting(ls, p) == 1);
        assert(spec_struct_lines(o) == ls);
    } else {
        let plines = props.map_values(
            |e: (String, crate::engine::ebex::ObjectProperty)| spec_property_line(e.1).drop_last(),
        );
        let flines = funcs.map_values(
            |e: (String, crate::engine::ebex::ObjectFunction)| spec_function_line(e.1).drop_last(),
        );
        assert forall|i: int| 0 <= i < plines.len() implies !spec_starts_with(#[trigger] plines[i], p) by {
            let l = spec_property_line(props[i].1);
            assert(l.len() >= 2);
            assert(l[0] == '\t');
            assert(plines[i] == l.drop_last());
            assert(plines[i][0] == '\t');
            if spec_starts_with(plines[i], p) {
                assert(plines[i].take(7)[0] == p[0]);
            }
        }
        assert forall|i: int| 0 <= i < flines.len() implies !spec_starts_with(#[trigger] flines[i], p) by {
            let l = spec_function_line(funcs[i].1);
            assert(l.len() >= 2);
            assert(l[0] == '\t');
            assert(flines[i] == l.drop_last());
            assert(flines[i][0] == '\t');
            if spec_starts_with(flines[i], p) {
                assert(flines[i].take(7)[0] == p[0]);
            }
        }
        lemma_count_none(plines, p);
        lemma_count_none(flines, p);
        let mid: Seq<Seq<char>> = if props.len() > 0 && funcs.len() > 0 {
            seq![Seq::<char>::empty()]
        } else {
            Seq::empty()
        };
        assert forall|i: int| 0 <= i < mid.len() implies !spec_starts_with(#[trigger] mid[i], p) by {}
        lemma_count_none(mid, p);
        let open = seq![head + " {"@];
        let close = seq!["};"@, Seq::<char>::empty()];
        assert forall|i: int| 0 <= i < close.len() implies !spec_starts_with(#[trigger] close[i], p) by {}
        lemma_count_none(close, p);
        assert(open.drop_last() =~= Seq::<Seq<char>>::empty());
        assert(open.last() == head + " {"@);
        assert(count_starting(Seq::<Seq<char>>::empty(), p) == 0);
        assert(count_starting(open, p) == 1);
        assert(spec_struct_lines(o) == open + plines + mid + flines + close);
        lemma_count_append(open + plines + mid + flines, close, p);
        lemma_count_append(open + plines + mid, flines, p);
        lemma_count_append(open + plines, mid, p);
        lemma_count_append(open, plines, p);
    }
}

proof fn lemma_blocks(es: Seq<(String, ObjectInfo)>)
    ensures
        spec_concat(es.map_values(|e: (String, ObjectInfo)| spec_struct_text(e.1))) == spec_with_breaks(
            spec_flatten_lines(es.map_values(|e: (String, ObjectInfo)| spec_struct_lines(e.1))),
        ),
        count_starting(
            spec_flatten_lines(es.map_values(|e: (String, ObjectInfo)| spec_struct_lines(e.1))),
            "struct "@,
        ) == es.len(),
    decreases es.len(),
{
    let texts = es.map_values(|e: (String, ObjectInfo)| spec_struct_text(e.1));
    let blocks = es.map_values(|e: (String, ObjectInfo)| spec_struct_lines(e.1));
    if es.len() == 0 {
        assert(spec_with_breaks(Seq::<Seq<char>>::empty()) =~= Seq::<char>::empty());
    } else {
        let rest = es.drop_last();
        lemma_blocks(rest);
        assert(texts.drop_last() =~= rest.map_values(|e: (String, ObjectInfo)| spec_struct_text(e.1)));
        assert(blocks.drop_last() =~= rest.map_values(|e: (String, ObjectInfo)| spec_struct_lines(e.1)));
        lemma_struct_text_lines(es.last().1);
        lemma_struct_lines_count(es.last().1);
        lemma_with_breaks_append(spec_flatten_lines(blocks.drop_last()), blocks.last());
        lemma_count_append(spec_flatten_lines(blocks.drop_last()), blocks.last(), "struct "@);
    }
}

/// The pseudocode of a registry is its lines, each followed by a line
/// break: type after type, a line of `struct`, the type's name, ` : ` and
/// its base type if it has one, and ` { }` or ` {`, then lines that begin
/// with a tab, `};` or nothing. So exactly as many of its lines begin with
/// `struct ` as the registry has types.
pub proof fn lemma_pseudocode_struct_lines(registry: ObjectInfoRegistry)
    ensures
        spec_pseudocode(registry) == spec_with_breaks(spec_pseudocode_lines(registry)),
        count_starting(spec_pseudocode_lines(registry), "struct "@) == registry.elements.entries@.len(),
{
    lemma_blocks(registry.elements.entries@);
}

} // verus!
