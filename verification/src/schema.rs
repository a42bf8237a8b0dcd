//! Merging CDDL schemas for control-plane validation.
//!
//! The node's own schema describes the fixed header maps; applications may
//! add schemas of their own. The merged rule set feeds a validation
//! context; merging fails when a schema does not parse, or when two schemas
//! define a rule of the same name.

use crate::registry::spec_unique_keys;
use crate::text::{concat2, str_eq};
use cddl_cat::context::BasicContext;
use cddl_cat::ivt::RuleDef;
use vstd::prelude::*;
use vstd::string::StringExecFns;

verus! {

/// The node's own schema: the wire shape of the fixed request and response
/// headers and of the error body.
pub const SCHEMA: &'static str = "request = {1 => uint, 2 => tstr, ? 3 => uint, 4 => bool}\nresponse = {1 => uint, 2 => uint, ? 3 => uint, 4 => bool}\nerror = {? 1 => tstr, ? 2 => uint, ? 3 => tstr}\n";

/// The context type of the outside validator.
#[verifier::external_type_specification]
#[verifier::external_body]
pub struct ExBasicContext(BasicContext);

/// One flattened rule definition of the outside validator.
#[verifier::external_type_specification]
#[verifier::external_body]
pub struct ExRuleDef(RuleDef);

/// The names of the rules a schema text defines, in their sorted order;
/// nothing when the text does not parse and flatten.
pub uninterp spec fn cddl_parse(s: Seq<char>) -> Option<Seq<Seq<char>>>;

/// The names of the rules a validation context holds.
pub uninterp spec fn context_rules(c: BasicContext) -> Set<Seq<char>>;

/// Relies on cddl_cat's `parse_cddl` and `flatten`: a schema text parses
/// into a map of uniquely named rules, and the outcome depends on the text
/// alone. The error is the parser's message.
#[verifier::external_body]
fn parse_schema(schema: &str) -> (r: Result<Vec<(String, RuleDef)>, String>)
    ensures
        r is Ok <==> cddl_parse(schema@) is Some,
        r matches Ok(v) ==> (cddl_parse(schema@) matches Some(names) && v@.map_values(
            |p: (String, RuleDef)| p.0@,
        ) == names && spec_unique_keys(v@)),
{
    let cddl = match cddl_cat::parse_cddl(schema) {
        Ok(c) => c,
        Err(e) => {
            return Err(format!("{}", e));
        },
    };
    match cddl_cat::flatten::flatten(&cddl) {
        Ok(rules) => Ok(rules.into_iter().collect()),
        Err(e) => Err(format!("{}", e)),
    }
}

/// Relies on `BasicContext::new`: the context holds exactly the given
/// rules, under their names.
#[verifier::external_body]
fn context_of(rules: Vec<(String, RuleDef)>) -> (r: BasicContext)
    ensures
        context_rules(r) == rules@.map_values(|p: (String, RuleDef)| p.0@).to_set(),
{
    BasicContext::new(rules.into_iter().collect())
}

/// The rule names a schema text defines; none when it does not parse.
pub open spec fn spec_names_of(s: Seq<char>) -> Seq<Seq<char>> {
    match cddl_parse(s) {
        Some(names) => names,
        None => Seq::empty(),
    }
}

/// The rule names of a list of schema texts, in order.
pub open spec fn spec_all_names(schemas: Seq<Seq<char>>) -> Seq<Seq<char>>
    decreases schemas.len(),
{
    if schemas.len() == 0 {
        Seq::empty()
    } else {
        spec_names_of(schemas[0]) + spec_all_names(schemas.drop_first())
    }
}

/// Whether any rule name appears twice.
pub open spec fn spec_has_dup(names: Seq<Seq<char>>) -> bool {
    exists|i: int, j: int| 0 <= i < j < names.len() && names[i] == names[j]
}

/// Splitting a schema list splits its rule names.
proof fn lemma_all_names_append(a: Seq<Seq<char>>, b: Seq<Seq<char>>)
    ensures
        spec_all_names(a + b) == spec_all_names(a) + spec_all_names(b),
    decreases a.len(),
{
    if a.len() == 0 {
        assert(a + b =~= b);
        assert(spec_all_names(a) + spec_all_names(b) =~= spec_all_names(b));
    } else {
        assert((a + b)[0] == a[0]);
        assert((a + b).drop_first() =~= a.drop_first() + b);
        lemma_all_names_append(a.drop_first(), b);
        assert(spec_names_of(a[0]) + (spec_all_names(a.drop_first()) + spec_all_names(b)) =~= (
        spec_names_of(a[0]) + spec_all_names(a.drop_first())) + spec_all_names(b));
    }
}

/// A duplicate in a prefix is a duplicate of the whole.
proof fn lemma_dup_extend(x: Seq<Seq<char>>, y: Seq<Seq<char>>)
    requires
        spec_has_dup(x),
    ensures
        spec_has_dup(x + y),
{
    let (i, j): (int, int) = choose|i: int, j: int| 0 <= i < j < x.len() && x[i] == x[j];
    assert((x + y)[i] == x[i] && (x + y)[j] == x[j]);
}

/// Appending a fresh name keeps the names duplicate-free.
proof fn lemma_no_dup_push(x: Seq<Seq<char>>, v: Seq<char>)
    requires
        !spec_has_dup(x),
        forall|t: int| 0 <= t < x.len() ==> x[t] != v,
    ensures
        !spec_has_dup(x.push(v)),
{
    assert forall|i: int, j: int| 0 <= i < j < x.push(v).len() implies x.push(v)[i] != x.push(
        v,
    )[j] by {
        if j == x.len() {
            assert(x.push(v)[i] == x[i]);
        } else {
            assert(x.push(v)[i] == x[i] && x.push(v)[j] == x[j]);
        }
    }
}

/// Whether the list holds a pair whose name matches `k`.
fn has_name(v: &Vec<(String, RuleDef)>, k: &str) -> (r: bool)
    ensures
        r == exists|t: int| 0 <= t < v@.len() && (#[trigger] v@[t]).0@ == k@,
{
    let mut i: usize = 0;
    while i < v.len()
        invariant
            0 <= i <= v@.len(),
            forall|t: int| 0 <= t < i ==> (#[trigger] v@[t]).0@ != k@,
        decreases v@.len() - i,
    {
        if str_eq(v[i].0.as_str(), k) {
            return true;
        }
        i = i + 1;
    }
    false
}

/// Parses one schema and moves its rules into the merged list, refusing a
/// rule name the list already holds. `all` is the full schema list and `i`
/// this schema's position in it, for accounting.
fn merge_schema(
    merged: &mut Vec<(String, RuleDef)>,
    schema: &str,
    Ghost(all): Ghost<Seq<Seq<char>>>,
    Ghost(i): Ghost<int>,
) -> (r: Result<(), String>)
    requires
        0 <= i < all.len(),
        all[i] == schema@,
        old(merged)@.map_values(|p: (String, RuleDef)| p.0@) == spec_all_names(
            all.subrange(0, i),
        ),
        !spec_has_dup(old(merged)@.map_values(|p: (String, RuleDef)| p.0@)),
    ensures
        r is Ok ==> (cddl_parse(schema@) is Some && final(merged)@.map_values(
            |p: (String, RuleDef)| p.0@,
        ) == spec_all_names(all.subrange(0, i + 1)) && !spec_has_dup(
            final(merged)@.map_values(|p: (String, RuleDef)| p.0@),
        )),
        r matches Err(m) ==> (cddl_parse(schema@) is None || (exists|x: int, y: int|
            0 <= x < y < spec_all_names(all).len() && spec_all_names(all)[x] == spec_all_names(
                all,
            )[y] && m@ == "CDDL files contain duplicate keys: "@ + spec_all_names(all)[x])),
{
    let mut rules = match parse_schema(schema) {
        Ok(rules) => rules,
        Err(e) => {
            return Err(e);
        },
    };
    let ghost names = spec_names_of(schema@);
    let ghost pre = merged@.map_values(|p: (String, RuleDef)| p.0@);
    let ghost big = pre + names;
    proof {
        // The names merged after this schema are those of the schemas up to
        // and including it.
        assert(all.subrange(0, i + 1) =~= all.subrange(0, i) + seq![all[i]]);
        lemma_all_names_append(all.subrange(0, i), seq![all[i]]);
        assert(spec_all_names(seq![all[i]]) =~= names) by {
            assert(seq![all[i]][0] == all[i]);
            assert(seq![all[i]].drop_first() =~= Seq::<Seq<char>>::empty());
            assert(names + spec_all_names(Seq::<Seq<char>>::empty()) =~= names);
        }
        assert(spec_all_names(all.subrange(0, i + 1)) == pre + names);
        assert(names.take(0) =~= Seq::<Seq<char>>::empty());
        assert(pre + names.take(0) =~= pre);
        assert(names.skip(0) =~= names);
    }
    while rules.len() > 0
        invariant
            0 <= i < all.len(),
            big == pre + names,
            big == spec_all_names(all.subrange(0, i + 1)),
            rules@.len() <= names.len(),
            rules@.map_values(|p: (String, RuleDef)| p.0@) == names.skip(
                names.len() - rules@.len(),
            ),
            merged@.map_values(|p: (String, RuleDef)| p.0@) == pre + names.take(
                names.len() - rules@.len(),
            ),
            !spec_has_dup(merged@.map_values(|p: (String, RuleDef)| p.0@)),
        decreases rules@.len(),
    {
        let ghost done = names.len() - rules@.len();
        let (k, def) = rules.remove(0);
        proof {
            assert(names.skip(done)[0] == names[done]);
            assert(k@ == names[done]);
            assert(names.skip(done).drop_first() =~= names.skip(done + 1));
        }
        let ghost mnames = merged@.map_values(|p: (String, RuleDef)| p.0@);
        if has_name(&merged, k.as_str()) {
            let message = concat2("CDDL files contain duplicate keys: ", k.as_str());
            proof {
                // The same name stands earlier in the merged list and at
                // position `done` of this schema: the combined names, and
                // with them the names of all schemas, repeat it — and the
                // message names it.
                let a = choose|t: int| 0 <= t < merged@.len() && (#[trigger] merged@[t]).0@ == k@;
                assert(mnames[a] == k@);
                assert(mnames.len() == pre.len() + done);
                assert(forall|c: int| 0 <= c < mnames.len() ==> #[trigger] big[c] == mnames[c])
                    by {
                    assert(forall|c: int|
                        0 <= c < mnames.len() ==> mnames[c] == #[trigger] (pre + names.take(
                            done,
                        ))[c]);
                }
                assert(big[a] == mnames[a]);
                assert(big[pre.len() + done] == names[done]);
                assert(0 <= a < pre.len() + done < big.len());
                assert(big[a] == big[pre.len() + done]);
                assert(spec_has_dup(big));
                assert(all =~= all.subrange(0, i + 1) + all.subrange(i + 1, all.len() as int));
                lemma_all_names_append(
                    all.subrange(0, i + 1),
                    all.subrange(i + 1, all.len() as int),
                );
                lemma_dup_extend(big, spec_all_names(all.subrange(i + 1, all.len() as int)));
                assert(spec_has_dup(spec_all_names(all)));
                assert(spec_all_names(all) == big + spec_all_names(
                    all.subrange(i + 1, all.len() as int),
                ));
                assert(spec_all_names(all)[a] == big[a]);
                assert(spec_all_names(all)[pre.len() + done] == big[pre.len() + done]);
                assert(message@ == "CDDL files contain duplicate keys: "@ + spec_all_names(
                    all,
                )[a]);
            }
            return Err(message);
        }
        proof {
            assert(forall|t: int| 0 <= t < mnames.len() ==> (#[trigger] mnames[t]) != k@) by {
                assert(forall|t: int| 0 <= t < merged@.len() ==> (#[trigger] merged@[t]).0@ != k@);
            }
            lemma_no_dup_push(mnames, k@);
        }
        merged.push((k, def));
        proof {
            assert(merged@.map_values(|p: (String, RuleDef)| p.0@) =~= mnames.push(names[done]));
            assert(pre + names.take(done + 1) =~= (pre + names.take(done)).push(names[done]));
        }
    }
    proof {
        assert(names.take(names.len() as int) =~= names);
    }
    Ok(())
}

/// Merges the node's own schema with the given ones into one validation
/// context. Succeeds exactly when every schema parses and no rule name is
/// defined twice; the context then holds every rule, in order. A schema
/// that does not parse is reported with the parser's message, a duplicate
/// with the offending name.
pub fn merged_cddl(cddl_schemas: &[&str]) -> (r: Result<BasicContext, String>)
    ensures
        ({
            let all = seq![SCHEMA@] + cddl_schemas@.map_values(|s: &str| s@);
            &&& r is Ok <==> ((forall|t: int|
                0 <= t < all.len() ==> (#[trigger] cddl_parse(all[t])) is Some) && !spec_has_dup(
                spec_all_names(all),
            ))
            &&& r matches Ok(ctx) ==> context_rules(ctx) == spec_all_names(all).to_set()
            &&& r matches Err(m) ==> ((forall|t: int|
                0 <= t < all.len() ==> (#[trigger] cddl_parse(all[t])) is Some) ==> exists|
                x: int,
                y: int,
            |
                0 <= x < y < spec_all_names(all).len() && spec_all_names(all)[x]
                    == spec_all_names(all)[y] && m@ == "CDDL files contain duplicate keys: "@
                    + spec_all_names(all)[x])
        }),
{
    let ghost all = seq![SCHEMA@] + cddl_schemas@.map_values(|s: &str| s@);
    let mut merged: Vec<(String, RuleDef)> = Vec::new();
    proof {
        assert(all.subrange(0, 0) =~= Seq::<Seq<char>>::empty());
        assert(all[0] == SCHEMA@);
        assert(merged@.map_values(|p: (String, RuleDef)| p.0@) =~= Seq::<Seq<char>>::empty());
    }
    match merge_schema(&mut merged, SCHEMA, Ghost(all), Ghost(0)) {
        Ok(_) => {},
        Err(e) => {
            return Err(e);
        },
    }
    let mut i: usize = 0;
    while i < cddl_schemas.len()
        invariant
            0 <= i <= cddl_schemas@.len(),
            all == seq![SCHEMA@] + cddl_schemas@.map_values(|s: &str| s@),
            all.len() == cddl_schemas@.len() + 1,
            merged@.map_values(|p: (String, RuleDef)| p.0@) == spec_all_names(
                all.subrange(0, i + 1),
            ),
            forall|t: int| 0 <= t < i + 1 ==> (#[trigger] cddl_parse(all[t])) is Some,
            !spec_has_dup(merged@.map_values(|p: (String, RuleDef)| p.0@)),
        decreases cddl_schemas@.len() - i,
    {
        let schema: &str = cddl_schemas[i];
        proof {
            assert(all[i + 1] == schema@);
        }
        match merge_schema(&mut merged, schema, Ghost(all), Ghost(i + 1 as int)) {
            Ok(_) => {},
            Err(e) => {
                proof {
                    if cddl_parse(all[i + 1]) is Some {
                        assert(spec_has_dup(spec_all_names(all)));
                    }
                }
                return Err(e);
            },
        }
        i = i + 1;
    }
    proof {
        assert(all.subrange(0, all.len() as int) =~= all);
    }
    Ok(context_of(merged))
}

} // verus!
