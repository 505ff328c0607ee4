//! Text helpers of the findings store: CSV fields and SQL filter clauses.
use vstd::prelude::*;
use crate::latex::{decimal, push_decimal};
use crate::text::{chars_of, push_char, push_str};

verus! {

/// `s` with every `"` doubled.
pub open spec fn double_quotes(s: Seq<char>) -> Seq<char>
    decreases s.len(),
{
    if s.len() == 0 {
        seq![]
    } else if s.last() == '"' {
        double_quotes(s.drop_last()) + seq!['"', '"']
    } else {
        double_quotes(s.drop_last()).push(s.last())
    }
}

/// A CSV field: quoted, with inner quotes doubled, when it holds a comma, a
/// quote or a line feed; as it is otherwise.
pub open spec fn csv_text(v: Seq<char>) -> Seq<char> {
    if v.contains(',') || v.contains('"') || v.contains('\n') {
        seq!['"'] + double_quotes(v) + seq!['"']
    } else {
        v
    }
}

pub fn csv_field(value: &str) -> (r: String)
    ensures
        r@ == csv_text(value@),
{
    let cs = chars_of(value);
    let mut special = false;
    let mut quoted = String::new();
    push_char(&mut quoted, '"');
    let mut i: usize = 0;
    while i < cs.len()
        invariant
            i <= cs@.len(),
            cs@ == value@,
            special == (cs@.subrange(0, i as int).contains(',') || cs@.subrange(0, i as int).contains('"')
                || cs@.subrange(0, i as int).contains('\n')),
            quoted@ == seq!['"'] + double_quotes(cs@.subrange(0, i as int)),
        decreases cs.len() - i,
    {
        let c = cs[i];
        let ghost pre = cs@.subrange(0, i as int);
        let ghost cur = cs@.subrange(0, i + 1);
        assert(cur =~= pre.push(c));
        assert(cur.drop_last() =~= pre);
        assert(forall|x: char| cur.contains(x) <==> (pre.contains(x) || x == c)) by {
            assert forall|x: char| cur.contains(x) implies (pre.contains(x) || x == c) by {
                let j = choose|j: int| 0 <= j < cur.len() && cur[j] == x;
                if j < pre.len() {
                    assert(pre[j] == x);
                }
            }
            assert forall|x: char| (pre.contains(x) || x == c) implies cur.contains(x) by {
                if x == c {
                    assert(cur[i as int] == x);
                } else {
                    let j = choose|j: int| 0 <= j < pre.len() && pre[j] == x;
                    assert(cur[j] == x);
                }
            }
        }
        if c == ',' || c == '"' || c == '\n' {
            special = true;
        }
        if c == '"' {
            push_char(&mut quoted, '"');
            push_char(&mut quoted, '"');
        } else {
            push_char(&mut quoted, c);
        }
        assert(quoted@ =~= seq!['"'] + double_quotes(cur));
        i = i + 1;
    }
    assert(cs@.subrange(0, i as int) =~= cs@);
    if special {
        push_char(&mut quoted, '"');
        quoted
    } else {
        String::from_str(value)
    }
}

/// One condition of a filter: the column test and its parameter number.
pub open spec fn clause(kind: int, n: nat) -> Seq<char> {
    (if kind == 0 { "asset = ?"@ } else if kind == 1 { "date >= ?"@ } else { "date <= ?"@ }) + decimal(n)
}

/// The conditions that the given filters make, numbered from 1 in the order
/// asset, from, to.
pub open spec fn clauses(asset: bool, from: bool, to: bool) -> Seq<Seq<char>> {
    let a: Seq<Seq<char>> = if asset { seq![clause(0, 1)] } else { seq![] };
    let f: Seq<Seq<char>> = if from { seq![clause(1, a.len() + 1)] } else { seq![] };
    let t: Seq<Seq<char>> = if to { seq![clause(2, a.len() + f.len() + 1)] } else { seq![] };
    a + f + t
}

/// The clauses joined by ` AND `.
pub open spec fn joined(cs: Seq<Seq<char>>) -> Seq<char>
    decreases cs.len(),
{
    if cs.len() == 0 {
        seq![]
    } else if cs.len() == 1 {
        cs[0]
    } else {
        joined(cs.drop_last()) + " AND "@ + cs.last()
    }
}

fn add_clause(sql: &mut String, values: &mut Vec<String>, column_test: &str, v: &str)
    requires
        old(values)@.len() < 3,
    ensures
        final(values)@ == old(values)@.push(final(values)@.last()),
        final(values)@.last()@ == v@,
        final(sql)@ == old(sql)@ + (if old(values)@.len() > 0 { " AND "@ } else { seq![] }) + column_test@
            + decimal(final(values)@.len() as nat),
{
    if values.len() > 0 {
        push_str(sql, " AND ");
    }
    values.push(String::from_str(v));
    push_str(sql, column_test);
    push_decimal(sql, values.len() as u64);
}

/// A `WHERE` clause and its parameter values for optional asset and date-range
/// filters: empty when no filter is set, else ` WHERE ` and the conditions
/// joined by ` AND `, parameters numbered `?1`, `?2`, ... in the order asset,
/// from, to.
pub fn build_where_clause(asset: Option<&str>, from: Option<&str>, to: Option<&str>) -> (r: (String, Vec<String>))
    ensures
        r.0@ == if clauses(asset is Some, from is Some, to is Some).len() == 0 {
            Seq::<char>::empty()
        } else {
            " WHERE "@ + joined(clauses(asset is Some, from is Some, to is Some))
        },
        r.1@.map_values(|s: String| s@) == (if asset is Some { seq![asset->0@] } else { Seq::<Seq<char>>::empty() })
            + (if from is Some { seq![from->0@] } else { Seq::<Seq<char>>::empty() })
            + (if to is Some { seq![to->0@] } else { Seq::<Seq<char>>::empty() }),
{
    let mut conds = String::new();
    let mut values: Vec<String> = Vec::new();
    let ghost cs = clauses(asset is Some, from is Some, to is Some);
    proof {
        reveal_strlit("asset = ?");
        reveal_strlit("date >= ?");
        reveal_strlit("date <= ?");
    }
    if let Some(a) = asset {
        add_clause(&mut conds, &mut values, "asset = ?", a);
    }
    let ghost after_a = values@;
    assert(conds@ =~= joined(cs.subrange(0, values@.len() as int)));
    if let Some(f) = from {
        let ghost pre = cs.subrange(0, values@.len() as int);
        add_clause(&mut conds, &mut values, "date >= ?", f);
        assert(cs.subrange(0, values@.len() as int).drop_last() =~= pre);
    }
    assert(conds@ =~= joined(cs.subrange(0, values@.len() as int)));
    if let Some(t) = to {
        let ghost pre = cs.subrange(0, values@.len() as int);
        add_clause(&mut conds, &mut values, "date <= ?", t);
        assert(cs.subrange(0, values@.len() as int).drop_last() =~= pre);
    }
    assert(cs.subrange(0, values@.len() as int) =~= cs);
    assert(values@.map_values(|s: String| s@) =~= (if asset is Some { seq![asset->0@] } else { Seq::<Seq<char>>::empty() })
        + (if from is Some { seq![from->0@] } else { Seq::<Seq<char>>::empty() })
        + (if to is Some { seq![to->0@] } else { Seq::<Seq<char>>::empty() }));
    if values.len() == 0 {
        (String::new(), values)
    } else {
        let mut sql = String::new();
        push_str(&mut sql, " WHERE ");
        push_str(&mut sql, conds.as_str());
        (sql, values)
    }
}

} // verus!
