//! Deriving the active feature set from environment-variable names.
//!
//! The host build tool announces each enabled feature through one
//! environment variable under a fixed prefix; the value is irrelevant,
//! presence alone enables the feature. The feature's name is the variable
//! name with the prefix stripped, underscores replaced by hyphens, and
//! ASCII letters lowercased.

use vstd::prelude::*;

verus! {

/// The fixed prefix `CARGO_FEATURE_` under which the build tool announces
/// enabled features, as bytes.
pub open spec fn feature_var_prefix() -> Seq<u8> {
    seq![67u8, 65u8, 82u8, 71u8, 79u8, 95u8, 70u8, 69u8, 65u8, 84u8, 85u8, 82u8, 69u8, 95u8]
}

/// Whether an environment-variable name announces a feature, i.e. starts
/// with the fixed prefix.
pub open spec fn is_feature_var(name: Seq<u8>) -> bool {
    name.len() >= feature_var_prefix().len() && name.subrange(
        0,
        feature_var_prefix().len() as int,
    ) == feature_var_prefix()
}

/// One byte of the feature-name transform: `_` becomes `-`, an ASCII
/// capital letter becomes its lowercase form, everything else is unchanged.
pub open spec fn lower_dash(b: u8) -> u8 {
    if b == 95 {
        45u8
    } else if 65 <= b && b <= 90 {
        (b + 32) as u8
    } else {
        b
    }
}

/// The feature a variable name announces: the name with the prefix
/// stripped and every byte sent through `lower_dash`.
pub open spec fn feature_of(name: Seq<u8>) -> Seq<u8> {
    name.subrange(feature_var_prefix().len() as int, name.len() as int).map_values(
        |b: u8| lower_dash(b),
    )
}

/// The feature set a list of environment-variable names yields: the
/// features of the prefixed names, in order of first announcement, each at
/// most once.
pub open spec fn features_of(vars: Seq<Seq<u8>>) -> Seq<Seq<u8>>
    decreases vars.len(),
{
    if vars.len() == 0 {
        Seq::empty()
    } else {
        let rest = features_of(vars.drop_last());
        if is_feature_var(vars.last()) && !rest.contains(feature_of(vars.last())) {
            rest.push(feature_of(vars.last()))
        } else {
            rest
        }
    }
}

/// Compares two byte strings.
pub fn bytes_eq(a: &Vec<u8>, b: &Vec<u8>) -> (r: bool)
    ensures
        r == (a@ == b@),
{
    if a.len() != b.len() {
        return false;
    }
    let mut i: usize = 0;
    while i < a.len()
        invariant
            0 <= i <= a.len(),
            a.len() == b.len(),
            forall|j: int| 0 <= j < i ==> a@[j] == b@[j],
        decreases a.len() - i,
    {
        if a[i] != b[i] {
            return false;
        }
        i += 1;
    }
    proof {
        assert(a@ =~= b@);
    }
    true
}

/// The fixed feature prefix as a byte vector.
fn feature_var_prefix_bytes() -> (r: Vec<u8>)
    ensures
        r@ == feature_var_prefix(),
{
    let mut r: Vec<u8> = Vec::new();
    r.push(67u8);
    r.push(65u8);
    r.push(82u8);
    r.push(71u8);
    r.push(79u8);
    r.push(95u8);
    r.push(70u8);
    r.push(69u8);
    r.push(65u8);
    r.push(84u8);
    r.push(85u8);
    r.push(82u8);
    r.push(69u8);
    r.push(95u8);
    proof {
        assert(r@ =~= feature_var_prefix());
    }
    r
}

/// The feature a variable name announces, if it carries the prefix.
pub fn feature_of_var(name: &Vec<u8>) -> (r: Option<Vec<u8>>)
    ensures
        r is Some <==> is_feature_var(name@),
        r is Some ==> (r->0)@ == feature_of(name@),
{
    let prefix = feature_var_prefix_bytes();
    if name.len() < prefix.len() {
        return None;
    }
    let mut i: usize = 0;
    while i < prefix.len()
        invariant
            0 <= i <= prefix.len(),
            prefix.len() <= name.len(),
            prefix@ == feature_var_prefix(),
            forall|j: int| 0 <= j < i ==> name@[j] == prefix@[j],
        decreases prefix.len() - i,
    {
        if name[i] != prefix[i] {
            proof {
                assert(name@.subrange(0, feature_var_prefix().len() as int)[i as int] != prefix@[
                    i as int
                ]);
            }
            return None;
        }
        i += 1;
    }
    proof {
        assert(name@.subrange(0, feature_var_prefix().len() as int) =~= feature_var_prefix());
    }
    let mut out: Vec<u8> = Vec::new();
    let mut j: usize = prefix.len();
    while j < name.len()
        invariant
            feature_var_prefix().len() <= j <= name.len(),
            out@ == name@.subrange(feature_var_prefix().len() as int, j as int).map_values(
                |b: u8| lower_dash(b),
            ),
        decreases name.len() - j,
    {
        let b = name[j];
        let t: u8 = if b == 95 {
            45u8
        } else if 65 <= b && b <= 90 {
            b + 32
        } else {
            b
        };
        out.push(t);
        proof {
            assert(name@.subrange(feature_var_prefix().len() as int, j + 1 as int).map_values(
                |b: u8| lower_dash(b),
            ) =~= name@.subrange(feature_var_prefix().len() as int, j as int).map_values(
                |b: u8| lower_dash(b),
            ).push(lower_dash(name@[j as int])));
        }
        j += 1;
    }
    proof {
        assert(name@.subrange(feature_var_prefix().len() as int, name@.len() as int) =~= name@
            .subrange(feature_var_prefix().len() as int, name.len() as int));
    }
    Some(out)
}

/// Whether a byte string is already among the collected features.
pub fn contains_bytes(have: &Vec<Vec<u8>>, item: &Vec<u8>) -> (r: bool)
    ensures
        r == have.deep_view().contains(item@),
{
    let mut i: usize = 0;
    while i < have.len()
        invariant
            0 <= i <= have.len(),
            forall|j: int| 0 <= j < i ==> have.deep_view()[j] != item@,
        decreases have.len() - i,
    {
        let hit = bytes_eq(&have[i], item);
        proof {
            assert(have.deep_view()[i as int] == have@[i as int]@);
        }
        if hit {
            return true;
        }
        i += 1;
    }
    false
}

/// Derives the feature set from a snapshot of environment-variable names:
/// exactly the features the prefixed names announce, in order of first
/// announcement, without duplicates.
pub fn derive_features(var_names: &Vec<Vec<u8>>) -> (r: Vec<Vec<u8>>)
    ensures
        r.deep_view() == features_of(var_names.deep_view()),
{
    let mut r: Vec<Vec<u8>> = Vec::new();
    let mut i: usize = 0;
    while i < var_names.len()
        invariant
            0 <= i <= var_names.len(),
            r.deep_view() == features_of(var_names.deep_view().take(i as int)),
        decreases var_names.len() - i,
    {
        let ghost pre = var_names.deep_view().take(i as int);
        let ghost cur = var_names.deep_view()[i as int];
        let ghost post = var_names.deep_view().take(i + 1 as int);
        proof {
            assert(post.drop_last() =~= pre);
            assert(post.last() == cur);
            assert(cur == var_names@[i as int].deep_view());
            assert(cur =~= var_names@[i as int]@);
        }
        let ghost r_pre = r.deep_view();
        let ghost rv_pre = r@;
        match feature_of_var(&var_names[i]) {
            Some(f) => {
                let ghost fv = f@;
                proof {
                    assert(is_feature_var(cur) && fv == feature_of(cur));
                }
                if !contains_bytes(&r, &f) {
                    r.push(f);
                    proof {
                        assert(r@ == rv_pre.push(f));
                        assert forall|k: int| 0 <= k < r@.len() implies r.deep_view()[k] == r_pre
                            .push(fv)[k] by {
                            if k < rv_pre.len() {
                                assert(r@[k] == rv_pre[k]);
                            } else {
                                assert(r@[k]@ == fv);
                            }
                        }
                        assert(r.deep_view() =~= r_pre.push(fv));
                        assert(!features_of(pre).contains(feature_of(cur)));
                        assert(features_of(post) == features_of(pre).push(feature_of(cur)));
                    }
                } else {
                    proof {
                        assert(features_of(pre).contains(feature_of(cur)));
                        assert(features_of(post) == features_of(pre));
                    }
                }
            },
            None => {
                proof {
                    assert(!is_feature_var(cur));
                    assert(features_of(post) == features_of(pre));
                }
            },
        }
        i += 1;
    }
    proof {
        assert(var_names.deep_view().take(var_names@.len() as int) =~= var_names.deep_view());
    }
    r
}

/// The feature set a variable list yields contains a feature exactly when
/// some prefixed variable announces it, and it lists no feature twice.
pub proof fn lemma_features_of_exact(vars: Seq<Seq<u8>>, f: Seq<u8>)
    ensures
        features_of(vars).contains(f) <==> (exists|i: int|
            0 <= i < vars.len() && is_feature_var(#[trigger] vars[i]) && feature_of(vars[i]) == f),
        features_of(vars).no_duplicates(),
    decreases vars.len(),
{
    if vars.len() == 0 {
    } else {
        lemma_features_of_exact(vars.drop_last(), f);
        let rest = features_of(vars.drop_last());
        if features_of(vars).contains(f) {
            if is_feature_var(vars.last()) && !rest.contains(feature_of(vars.last())) {
                if feature_of(vars.last()) == f {
                    assert(is_feature_var(vars[vars.len() - 1]) && feature_of(
                        vars[vars.len() - 1],
                    ) == f);
                } else {
                    assert(rest.contains(f));
                    let i = choose|i: int|
                        0 <= i < vars.drop_last().len() && is_feature_var(
                            #[trigger] vars.drop_last()[i],
                        ) && feature_of(vars.drop_last()[i]) == f;
                    assert(vars.drop_last()[i] == vars[i]);
                    assert(is_feature_var(vars[i]) && feature_of(vars[i]) == f);
                }
            } else {
                assert(rest.contains(f));
                let i = choose|i: int|
                    0 <= i < vars.drop_last().len() && is_feature_var(
                        #[trigger] vars.drop_last()[i],
                    ) && feature_of(vars.drop_last()[i]) == f;
                assert(vars.drop_last()[i] == vars[i]);
                assert(is_feature_var(vars[i]) && feature_of(vars[i]) == f);
            }
        }
        if exists|i: int|
            0 <= i < vars.len() && is_feature_var(#[trigger] vars[i]) && feature_of(vars[i]) == f {
            let i = choose|i: int|
                0 <= i < vars.len() && is_feature_var(#[trigger] vars[i]) && feature_of(vars[i])
                    == f;
            if i < vars.len() - 1 {
                assert(vars.drop_last()[i] == vars[i]);
                assert(rest.contains(f));
                if is_feature_var(vars.last()) && !rest.contains(feature_of(vars.last())) {
                    let j = choose|j: int| 0 <= j < rest.len() && rest[j] == f;
                    assert(features_of(vars)[j] == f);
                } else {
                    assert(features_of(vars).contains(f));
                }
            } else {
                assert(vars[i] == vars.last());
                if rest.contains(feature_of(vars.last())) {
                    let j = choose|j: int| 0 <= j < rest.len() && rest[j] == f;
                    assert(features_of(vars)[j] == f);
                } else {
                    assert(features_of(vars).last() == f);
                }
            }
        }
        if is_feature_var(vars.last()) && !rest.contains(feature_of(vars.last())) {
            assert(features_of(vars) == rest.push(feature_of(vars.last())));
            assert forall|p: int, q: int|
                0 <= p < q < features_of(vars).len() implies features_of(vars)[p] != features_of(
                vars,
            )[q] by {
                if q < rest.len() {
                    assert(rest.no_duplicates());
                } else {
                    assert(features_of(vars)[q] == feature_of(vars.last()));
                    assert(features_of(vars)[p] == rest[p]);
                    assert(!rest.contains(feature_of(vars.last())));
                }
            }
        }
    }
}

} // verus!
