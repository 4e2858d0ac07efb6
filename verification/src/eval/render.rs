//! The textual form of values.

use crate::eval::store::{valid_value, Store};
use crate::eval::value::{ObjectView, Value, Var};
use vstd::prelude::*;
use vstd::string::StringExecFns;

verus! {

/// `String::push`: the character is appended at the end.
pub assume_specification[ std::string::String::push ](text: &mut std::string::String, c: char)
    ensures
        final(text)@ == old(text)@.push(c),
;

/// The decimal digit for a number below ten.
pub open spec fn digit(d: nat) -> char {
    if d == 0 {
        '0'
    } else if d == 1 {
        '1'
    } else if d == 2 {
        '2'
    } else if d == 3 {
        '3'
    } else if d == 4 {
        '4'
    } else if d == 5 {
        '5'
    } else if d == 6 {
        '6'
    } else if d == 7 {
        '7'
    } else if d == 8 {
        '8'
    } else {
        '9'
    }
}

/// The decimal spelling of a natural number, without leading zeros.
pub open spec fn nat_text(n: nat) -> Seq<char>
    decreases n,
{
    if n < 10 {
        seq![digit(n)]
    } else {
        nat_text(n / 10).push(digit(n % 10))
    }
}

/// The decimal spelling of an integer, with `-` before a negative one.
pub open spec fn int_text(i: int) -> Seq<char> {
    if i < 0 {
        seq!['-'] + nat_text((-i) as nat)
    } else {
        nat_text(i as nat)
    }
}

/// The textual form of a value.
///
/// `void`, `true` and `false` are spelled so; an integer is in decimal; a
/// float, a character and a string stand as they are, unquoted; a list is
/// `[a, b]`; a struct is `Name { field: value, other: value }`. An aggregate
/// nested deeper than `fuel` levels is written `...`, which ends the text of
/// a value that contains itself.
pub open spec fn render(heap: Seq<ObjectView>, value: Value, fuel: nat) -> Seq<char>
    decreases fuel, 0nat, 0nat,
{
    match value {
        Value::Void => "void"@,
        Value::Bool(b) => if b {
            "true"@
        } else {
            "false"@
        },
        Value::Int(i) => int_text(i as int),
        Value::Float(text) => text,
        Value::Char(c) => seq![c],
        Value::Text(text) => text,
        Value::List(handle) => if fuel == 0 || !valid_value(heap, value) {
            "..."@
        } else {
            seq!['['] + render_items(heap, heap[handle as int]->List_0, 0, (fuel - 1) as nat)
                + seq![']']
        },
        Value::Struct(handle) => if fuel == 0 || !valid_value(heap, value) {
            "..."@
        } else {
            let s = heap[handle as int]->Struct_0;
            s.name + " {"@ + render_fields(heap, s.fields, 0, (fuel - 1) as nat) + " }"@
        },
    }
}

/// The items from index `from` on, separated by `, `.
pub open spec fn render_items(heap: Seq<ObjectView>, items: Seq<Value>, from: int, fuel: nat) -> Seq<
    char,
>
    decreases fuel, 1nat, items.len() - from,
{
    if from < 0 || from >= items.len() {
        Seq::empty()
    } else {
        (if from > 0 {
            ", "@
        } else {
            Seq::empty()
        }) + render(heap, items[from], fuel) + render_items(heap, items, from + 1, fuel)
    }
}

/// The fields from index `from` on, each as ` name: value`, separated by
/// `,`.
pub open spec fn render_fields(
    heap: Seq<ObjectView>,
    fields: Seq<(Seq<char>, Value)>,
    from: int,
    fuel: nat,
) -> Seq<char>
    decreases fuel, 1nat, fields.len() - from,
{
    if from < 0 || from >= fields.len() {
        Seq::empty()
    } else {
        (if from > 0 {
            ","@
        } else {
            Seq::empty()
        }) + " "@ + fields[from].0 + ": "@ + render(heap, fields[from].1, fuel) + render_fields(
            heap,
            fields,
            from + 1,
            fuel,
        )
    }
}

/// The textual form of a value in a store: nesting is followed as deep as
/// the store has aggregates, which is as deep as a value that does not
/// contain itself can go.
pub open spec fn display(heap: Seq<ObjectView>, value: Value) -> Seq<char> {
    render(heap, value, heap.len())
}

fn digit_char(d: u64) -> (c: char)
    requires
        d < 10,
    ensures
        c == digit(d as nat),
{
    if d == 0 {
        '0'
    } else if d == 1 {
        '1'
    } else if d == 2 {
        '2'
    } else if d == 3 {
        '3'
    } else if d == 4 {
        '4'
    } else if d == 5 {
        '5'
    } else if d == 6 {
        '6'
    } else if d == 7 {
        '7'
    } else if d == 8 {
        '8'
    } else {
        '9'
    }
}

/// Appends the decimal spelling of `n`.
pub fn push_nat(out: &mut String, n: u64)
    ensures
        final(out)@ == old(out)@ + nat_text(n as nat),
    decreases n,
{
    if n >= 10 {
        push_nat(out, n / 10);
    }
    out.push(digit_char(n % 10));
    assert(out@ =~= old(out)@ + nat_text(n as nat));
}

/// Appends the decimal spelling of `i`.
pub fn push_int(out: &mut String, i: i64)
    ensures
        final(out)@ == old(out)@ + int_text(i as int),
{
    if i < 0 {
        out.push('-');
        let magnitude: u64 = ((-(i + 1)) as u64) + 1;
        push_nat(out, magnitude);
        assert(out@ =~= old(out)@ + int_text(i as int));
    } else {
        push_nat(out, i as u64);
    }
}

/// Appends the textual form of `value`.
pub fn render_into(store: &Store, out: &mut String, value: &Var, fuel: usize)
    ensures
        final(out)@ == old(out)@ + render(store@, value@, fuel as nat),
    decreases fuel,
{
    match value {
        Var::Void => out.append("void"),
        Var::Bool(b) => {
            if *b {
                out.append("true")
            } else {
                out.append("false")
            }
        },
        Var::Int(i) => push_int(out, *i),
        Var::Float(text) => out.append(text.as_str()),
        Var::Char(c) => {
            out.push(*c);
            assert(out@ =~= old(out)@ + seq![*c]);
        },
        Var::String(text) => out.append(text.as_str()),
        Var::List(handle) => {
            if fuel == 0 || !store.holds(value) {
                out.append("...");
            } else {
                let items = store.list_at(*handle);
                let ghost view = items.deep_view();
                let ghost heap = store@;
                let ghost inner = (fuel - 1) as nat;
                out.push('[');
                let ghost start = out@;
                let mut i: usize = 0;
                while i < items.len()
                    invariant
                        i <= items.len(),
                        fuel > 0,
                        inner == (fuel - 1) as nat,
                        heap == store@,
                        view == items.deep_view(),
                        out@ + render_items(heap, view, i as int, inner) == start + render_items(
                            heap,
                            view,
                            0,
                            inner,
                        ),
                    decreases items.len() - i,
                {
                    let ghost before = out@;
                    if i > 0 {
                        out.append(", ");
                    }
                    render_into(store, out, &items[i], fuel - 1);
                    proof {
                        assert(view[i as int] == items[i as int]@);
                        assert(out@ + render_items(heap, view, i + 1, inner) =~= before
                            + render_items(heap, view, i as int, inner));
                    }
                    i += 1;
                }
                out.push(']');
                assert(out@ =~= old(out)@ + render(heap, value@, fuel as nat));
            }
        },
        Var::Struct(handle) => {
            if fuel == 0 || !store.holds(value) {
                out.append("...");
            } else {
                let s = store.struct_at(*handle);
                let ghost view = s.fields.deep_view();
                let ghost heap = store@;
                let ghost inner = (fuel - 1) as nat;
                out.append(s.name.as_str());
                out.append(" {");
                let ghost start = out@;
                let mut i: usize = 0;
                while i < s.fields.len()
                    invariant
                        i <= s.fields.len(),
                        fuel > 0,
                        inner == (fuel - 1) as nat,
                        heap == store@,
                        view == s.fields.deep_view(),
                        out@ + render_fields(heap, view, i as int, inner) == start + render_fields(
                            heap,
                            view,
                            0,
                            inner,
                        ),
                    decreases s.fields.len() - i,
                {
                    let ghost before = out@;
                    if i > 0 {
                        out.append(",");
                    }
                    out.append(" ");
                    out.append(s.fields[i].0.as_str());
                    out.append(": ");
                    render_into(store, out, &s.fields[i].1, fuel - 1);
                    proof {
                        crate::eval::entries::lemma_entry_view(s.fields, i as int);
                        assert(out@ + render_fields(heap, view, i + 1, inner) =~= before
                            + render_fields(heap, view, i as int, inner));
                    }
                    i += 1;
                }
                out.append(" }");
                assert(out@ =~= old(out)@ + render(heap, value@, fuel as nat));
            }
        },
    }
}

/// The textual form of `value` in `store`.
pub fn render_var(store: &Store, value: &Var) -> (text: String)
    ensures
        text@ == display(store@, value@),
{
    let mut text = String::new();
    render_into(store, &mut text, value, store.len());
    assert(text@ =~= display(store@, value@));
    text
}

} // verus!
