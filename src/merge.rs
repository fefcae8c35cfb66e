//! The merge engine: a template's containers combined with the caller's
//! overrides into the containers of a one-off run.
//!
//! Overrides are matched to containers by exact name, and the first override
//! of a name wins: a base container takes the first override with its name,
//! and of several overrides that share a name absent from the base, only the
//! first adds a container.

use vstd::prelude::*;
use crate::model::{
    containers_view, copy_envs, copy_strings, envs_view, opt_envs_view, opt_strings_view, pods_view,
    strings_view, Container, ContainerView, EnvVar, PodContainer, PodContainerView,
};

verus! {

/// Some override has this name.
pub open spec fn has_match(os: Seq<ContainerView>, name: Seq<char>) -> bool {
    exists|j: int| 0 <= j < os.len() && (#[trigger] os[j]).name == name
}

/// `k` is the first override with this name.
pub open spec fn is_first_match(os: Seq<ContainerView>, name: Seq<char>, k: int) -> bool {
    &&& 0 <= k < os.len()
    &&& os[k].name == name
    &&& forall|j: int| 0 <= j < k ==> (#[trigger] os[j]).name != name
}

/// The index of the first override with this name (meaningful where one has it).
pub open spec fn first_match(os: Seq<ContainerView>, name: Seq<char>) -> int {
    choose|k: int| is_first_match(os, name, k)
}

/// Some base container has this name.
pub open spec fn in_base<X>(base: Seq<PodContainerView<X>>, name: Seq<char>) -> bool {
    exists|i: int| 0 <= i < base.len() && (#[trigger] base[i]).name == name
}

/// An override's sequence as it is set on a container: absent when empty.
pub open spec fn nonempty<T>(s: Seq<T>) -> Option<Seq<T>> {
    if s.len() == 0 {
        None
    } else {
        Some(s)
    }
}

/// A base container refined by its override: the image always comes from the
/// override, and command, arguments and environment too, cleared when the
/// override's are empty; the rest of the base container is kept.
pub open spec fn refined<X>(b: PodContainerView<X>, o: ContainerView) -> PodContainerView<X> {
    PodContainerView {
        name: b.name,
        image: Some(o.image),
        command: nonempty(o.command),
        args: nonempty(o.args),
        env: nonempty(o.env),
        extra: b.extra,
    }
}

/// A container built from an override alone.
pub open spec fn fresh<X>(o: ContainerView) -> PodContainerView<X> {
    PodContainerView {
        name: o.name,
        image: Some(o.image),
        command: nonempty(o.command),
        args: nonempty(o.args),
        env: nonempty(o.env),
        extra: None,
    }
}

/// What the first `n` base containers become: each one that an override
/// names, refined by the first such override; the others are dropped.
pub open spec fn merged_base<X>(
    base: Seq<PodContainerView<X>>,
    os: Seq<ContainerView>,
    n: nat,
) -> Seq<PodContainerView<X>>
    decreases n,
{
    if n == 0 {
        seq![]
    } else {
        let r = merged_base(base, os, (n - 1) as nat);
        let b = base[n - 1];
        if has_match(os, b.name) {
            r.push(refined(b, os[first_match(os, b.name)]))
        } else {
            r
        }
    }
}

/// The containers added by the first `n` overrides: one for each override
/// that is the first of its name, where no base container has that name.
pub open spec fn added<X>(
    base: Seq<PodContainerView<X>>,
    os: Seq<ContainerView>,
    n: nat,
) -> Seq<PodContainerView<X>>
    decreases n,
{
    if n == 0 {
        seq![]
    } else {
        let r = added(base, os, (n - 1) as nat);
        let o = os[n - 1];
        if !in_base(base, o.name) && first_match(os, o.name) == n - 1 {
            r.push(fresh(o))
        } else {
            r
        }
    }
}

/// The merged containers: those from the base first, in base order, then the
/// added ones, in override order.
pub open spec fn merged<X>(base: Seq<PodContainerView<X>>, os: Seq<ContainerView>) -> Seq<
    PodContainerView<X>,
> {
    merged_base(base, os, base.len()) + added(base, os, os.len())
}

/// There is only one first match.
pub proof fn lemma_first_match_unique(os: Seq<ContainerView>, name: Seq<char>, k: int)
    requires
        is_first_match(os, name, k),
    ensures
        first_match(os, name) == k,
{
    let c = first_match(os, name);
    assert(is_first_match(os, name, c));
    if c < k {
        assert(os[c].name != name);
    } else if k < c {
        assert(os[k].name != name);
    }
}

/// Each container from the base is a base container that an override names,
/// refined by the first such override.
proof fn lemma_merged_base_elements<X>(
    base: Seq<PodContainerView<X>>,
    os: Seq<ContainerView>,
    n: nat,
)
    requires
        n <= base.len(),
    ensures
        forall|k: int|
            0 <= k < merged_base(base, os, n).len() ==> exists|i: int|
                0 <= i < n && has_match(os, base[i].name) && #[trigger] merged_base(
                    base,
                    os,
                    n,
                )[k] == refined(base[i], os[first_match(os, base[i].name)]),
    decreases n,
{
    if n > 0 {
        lemma_merged_base_elements(base, os, (n - 1) as nat);
        let r = merged_base(base, os, (n - 1) as nat);
        assert forall|k: int| 0 <= k < merged_base(base, os, n).len() implies exists|i: int|
            0 <= i < n && has_match(os, base[i].name) && #[trigger] merged_base(base, os, n)[k]
                == refined(base[i], os[first_match(os, base[i].name)]) by {
            if k < r.len() {
                assert(merged_base(base, os, n)[k] == r[k]);
            } else {
                assert(merged_base(base, os, n)[k] == refined(
                    base[n - 1],
                    os[first_match(os, base[n - 1].name)],
                ));
            }
        }
    }
}

/// Each matched base container among the first `n` stands in the result.
proof fn lemma_merged_base_keeps<X>(
    base: Seq<PodContainerView<X>>,
    os: Seq<ContainerView>,
    n: nat,
    i: int,
)
    requires
        n <= base.len(),
        0 <= i < n,
        has_match(os, base[i].name),
    ensures
        exists|k: int|
            0 <= k < merged_base(base, os, n).len() && #[trigger] merged_base(base, os, n)[k]
                == refined(base[i], os[first_match(os, base[i].name)]),
    decreases n,
{
    let r = merged_base(base, os, (n - 1) as nat);
    if i == n - 1 {
        assert(merged_base(base, os, n)[r.len() as int] == refined(
            base[i],
            os[first_match(os, base[i].name)],
        ));
    } else {
        lemma_merged_base_keeps(base, os, (n - 1) as nat, i);
        let k = choose|k: int|
            0 <= k < r.len() && #[trigger] r[k] == refined(base[i], os[first_match(os, base[i].name)]);
        assert(merged_base(base, os, n)[k] == r[k]);
    }
}

/// Each added container is built from an override that is the first of its
/// name, a name that no base container has.
proof fn lemma_added_elements<X>(base: Seq<PodContainerView<X>>, os: Seq<ContainerView>, n: nat)
    requires
        n <= os.len(),
    ensures
        forall|k: int|
            0 <= k < added(base, os, n).len() ==> exists|j: int|
                0 <= j < n && !in_base(base, os[j].name) && first_match(os, os[j].name) == j
                    && #[trigger] added(base, os, n)[k] == fresh::<X>(os[j]),
    decreases n,
{
    if n > 0 {
        lemma_added_elements(base, os, (n - 1) as nat);
        let r = added(base, os, (n - 1) as nat);
        assert forall|k: int| 0 <= k < added(base, os, n).len() implies exists|j: int|
            0 <= j < n && !in_base(base, os[j].name) && first_match(os, os[j].name) == j
                && #[trigger] added(base, os, n)[k] == fresh::<X>(os[j]) by {
            if k < r.len() {
                assert(added(base, os, n)[k] == r[k]);
            } else {
                assert(added(base, os, n)[k] == fresh::<X>(os[n - 1]));
            }
        }
    }
}

/// Each override that is the first of its name, where no base container has
/// that name, stands among the first `n` added containers.
proof fn lemma_added_keeps<X>(base: Seq<PodContainerView<X>>, os: Seq<ContainerView>, n: nat, j: int)
    requires
        n <= os.len(),
        0 <= j < n,
        !in_base(base, os[j].name),
        first_match(os, os[j].name) == j,
    ensures
        exists|k: int|
            0 <= k < added(base, os, n).len() && #[trigger] added(base, os, n)[k] == fresh::<X>(
                os[j],
            ),
    decreases n,
{
    let r = added(base, os, (n - 1) as nat);
    if j == n - 1 {
        assert(added(base, os, n)[r.len() as int] == fresh::<X>(os[j]));
    } else {
        lemma_added_keeps(base, os, (n - 1) as nat, j);
        let k = choose|k: int| 0 <= k < r.len() && #[trigger] r[k] == fresh::<X>(os[j]);
        assert(added(base, os, n)[k] == r[k]);
    }
}

/// Each merged container is either a base container refined by the first
/// override of its name, or, where no base container has its name, a
/// container built from the first override of that name alone.
proof fn lemma_merged_elements<X>(base: Seq<PodContainerView<X>>, os: Seq<ContainerView>)
    ensures
        forall|k: int|
            0 <= k < merged(base, os).len() ==> {
                let c = #[trigger] merged(base, os)[k];
                &&& has_match(os, c.name)
                &&& is_first_match(os, c.name, first_match(os, c.name))
                &&& in_base(base, c.name) ==> exists|i: int|
                    0 <= i < base.len() && base[i].name == c.name && c == refined(
                        base[i],
                        os[first_match(os, c.name)],
                    )
                &&& !in_base(base, c.name) ==> c == fresh::<X>(os[first_match(os, c.name)])
            },
{
    let mb = merged_base(base, os, base.len());
    let ad = added(base, os, os.len());
    lemma_merged_base_elements(base, os, base.len());
    lemma_added_elements(base, os, os.len());
    assert forall|k: int| 0 <= k < merged(base, os).len() implies {
        let c = #[trigger] merged(base, os)[k];
        &&& has_match(os, c.name)
        &&& is_first_match(os, c.name, first_match(os, c.name))
        &&& in_base(base, c.name) ==> exists|i: int|
            0 <= i < base.len() && base[i].name == c.name && c == refined(
                base[i],
                os[first_match(os, c.name)],
            )
        &&& !in_base(base, c.name) ==> c == fresh::<X>(os[first_match(os, c.name)])
    } by {
        let c = merged(base, os)[k];
        if k < mb.len() {
            assert(c == mb[k]);
            let i = choose|i: int|
                0 <= i < base.len() && has_match(os, base[i].name) && mb[k] == refined(
                    base[i],
                    os[first_match(os, base[i].name)],
                );
            assert(c.name == base[i].name);
            assert(in_base(base, c.name));
            let w = choose|j: int| 0 <= j < os.len() && (#[trigger] os[j]).name == c.name;
            lemma_has_first_match(os, c.name, w);
        } else {
            assert(c == ad[k - mb.len()]);
            let j = choose|j: int|
                0 <= j < os.len() && !in_base(base, os[j].name) && first_match(os, os[j].name)
                    == j && ad[k - mb.len()] == fresh::<X>(os[j]);
            assert(c.name == os[j].name);
            lemma_has_first_match(os, c.name, j);
        }
    }
}

/// Where some override has a name, a first one has it.
proof fn lemma_has_first_match(os: Seq<ContainerView>, name: Seq<char>, w: int)
    requires
        0 <= w < os.len(),
        os[w].name == name,
    ensures
        has_match(os, name),
        is_first_match(os, name, first_match(os, name)),
    decreases w,
{
    if forall|j: int| 0 <= j < w ==> (#[trigger] os[j]).name != name {
        assert(is_first_match(os, name, w));
    } else {
        let v = choose|j: int| 0 <= j < w && (#[trigger] os[j]).name == name;
        lemma_has_first_match(os, name, v);
    }
}

/// No container comes out of a merge under a name that no override has.
pub proof fn lemma_merge_names_from_overrides<X>(
    base: Seq<PodContainerView<X>>,
    os: Seq<ContainerView>,
)
    ensures
        forall|k: int|
            0 <= k < merged(base, os).len() ==> has_match(os, (#[trigger] merged(base, os)[k]).name),
{
    lemma_merged_elements(base, os);
}

/// The image of every merged container is that of the override of its name,
/// never the base container's; and each base container that an override
/// names comes out refined by it.
pub proof fn lemma_merge_image_from_override<X>(
    base: Seq<PodContainerView<X>>,
    os: Seq<ContainerView>,
)
    ensures
        forall|k: int|
            0 <= k < merged(base, os).len() ==> (#[trigger] merged(base, os)[k]).image == Some(
                os[first_match(os, merged(base, os)[k].name)].image,
            ),
        forall|i: int|
            0 <= i < base.len() && has_match(os, (#[trigger] base[i]).name) ==> exists|k: int|
                0 <= k < merged(base, os).len() && #[trigger] merged(base, os)[k] == refined(
                    base[i],
                    os[first_match(os, base[i].name)],
                ),
{
    lemma_merged_elements(base, os);
    let mb = merged_base(base, os, base.len());
    assert forall|i: int| 0 <= i < base.len() && has_match(os, (#[trigger] base[i]).name) implies exists|k: int|
        0 <= k < merged(base, os).len() && #[trigger] merged(base, os)[k] == refined(
            base[i],
            os[first_match(os, base[i].name)],
        ) by {
        lemma_merged_base_keeps(base, os, base.len(), i);
        let k = choose|k: int|
            0 <= k < mb.len() && #[trigger] mb[k] == refined(base[i], os[first_match(os, base[i].name)]);
        assert(merged(base, os)[k] == mb[k]);
    }
}

/// An override with an empty command leaves the container of its name with
/// no command, whatever the base container's command was.
pub proof fn lemma_merge_empty_command_clears<X>(
    base: Seq<PodContainerView<X>>,
    os: Seq<ContainerView>,
)
    ensures
        forall|k: int|
            0 <= k < merged(base, os).len() && os[first_match(
                os,
                (#[trigger] merged(base, os)[k]).name,
            )].command.len() == 0 ==> merged(base, os)[k].command is None,
{
    lemma_merged_elements(base, os);
}

/// An override whose name no base container has adds a container made of the
/// override's fields alone, and every merged container under such a name is
/// one of these.
pub proof fn lemma_merge_unmatched_override_fresh<X>(
    base: Seq<PodContainerView<X>>,
    os: Seq<ContainerView>,
)
    ensures
        forall|j: int|
            0 <= j < os.len() && !in_base(base, (#[trigger] os[j]).name) && first_match(
                os,
                os[j].name,
            ) == j ==> exists|k: int|
                0 <= k < merged(base, os).len() && #[trigger] merged(base, os)[k] == fresh::<X>(
                    os[j],
                ),
        forall|k: int|
            0 <= k < merged(base, os).len() && !in_base(
                base,
                (#[trigger] merged(base, os)[k]).name,
            ) ==> merged(base, os)[k] == fresh::<X>(os[first_match(os, merged(base, os)[k].name)]),
{
    lemma_merged_elements(base, os);
    let mb = merged_base(base, os, base.len());
    let ad = added(base, os, os.len());
    assert forall|j: int|
        0 <= j < os.len() && !in_base(base, (#[trigger] os[j]).name) && first_match(os, os[j].name)
            == j implies exists|k: int|
        0 <= k < merged(base, os).len() && #[trigger] merged(base, os)[k] == fresh::<X>(os[j]) by {
        lemma_added_keeps(base, os, os.len(), j);
        let k = choose|k: int| 0 <= k < ad.len() && #[trigger] ad[k] == fresh::<X>(os[j]);
        assert(merged(base, os)[mb.len() + k] == ad[k]);
    }
}

/// Every name that an override has comes out of a merge: refining the base
/// containers of that name, or else as an added container.
pub proof fn lemma_merge_keeps_override_names<X>(
    base: Seq<PodContainerView<X>>,
    os: Seq<ContainerView>,
)
    ensures
        forall|j: int|
            0 <= j < os.len() ==> exists|k: int|
                0 <= k < merged(base, os).len() && (#[trigger] merged(base, os)[k]).name == (
                #[trigger] os[j]).name,
{
    lemma_merge_image_from_override(base, os);
    lemma_merge_unmatched_override_fresh(base, os);
    assert forall|j: int| 0 <= j < os.len() implies exists|k: int|
        0 <= k < merged(base, os).len() && (#[trigger] merged(base, os)[k]).name == (
        #[trigger] os[j]).name by {
        let name = os[j].name;
        lemma_has_first_match(os, name, j);
        if in_base(base, name) {
            let i = choose|i: int| 0 <= i < base.len() && (#[trigger] base[i]).name == name;
            assert(has_match(os, base[i].name));
            let k = choose|k: int|
                0 <= k < merged(base, os).len() && #[trigger] merged(base, os)[k] == refined(
                    base[i],
                    os[first_match(os, base[i].name)],
                );
            assert(merged(base, os)[k].name == name);
        } else {
            let f = first_match(os, name);
            assert(os[f].name == name);
            lemma_first_match_unique(os, name, f);
            let k = choose|k: int|
                0 <= k < merged(base, os).len() && #[trigger] merged(base, os)[k] == fresh::<X>(
                    os[f],
                );
            assert(merged(base, os)[k].name == name);
        }
    }
}

/// The first override whose name is `name`.
fn find_override(compare: &Vec<Container>, name: &String) -> (r: Option<usize>)
    ensures
        match r {
            Some(k) => is_first_match(containers_view(compare@), name@, k as int)
                && first_match(containers_view(compare@), name@) == k,
            None => !has_match(containers_view(compare@), name@),
        },
{
    let ghost cv = containers_view(compare@);
    let mut i: usize = 0;
    while i < compare.len()
        invariant
            i <= compare.len(),
            cv == containers_view(compare@),
            forall|j: int| 0 <= j < i ==> (#[trigger] cv[j]).name != name@,
        decreases compare.len() - i,
    {
        if compare[i].name == *name {
            assert(cv[i as int].name == name@);
            proof {
                lemma_first_match_unique(cv, name@, i as int);
            }
            return Some(i);
        }
        assert(cv[i as int].name != name@);
        i = i + 1;
    }
    None
}

/// Whether a base container has the name `name`.
fn contains_name<X>(base: &Vec<PodContainer<X>>, name: &String) -> (r: bool)
    ensures
        r == in_base(pods_view(base@), name@),
{
    let ghost bv = pods_view(base@);
    let mut i: usize = 0;
    while i < base.len()
        invariant
            i <= base.len(),
            bv == pods_view(base@),
            forall|j: int| 0 <= j < i ==> (#[trigger] bv[j]).name != name@,
        decreases base.len() - i,
    {
        if base[i].name == *name {
            assert(bv[i as int].name == name@);
            return true;
        }
        assert(bv[i as int].name != name@);
        i = i + 1;
    }
    false
}

/// A copy of `v`, or nothing where `v` is empty.
fn nonempty_strings(v: &Vec<String>) -> (r: Option<Vec<String>>)
    ensures
        opt_strings_view(r) == nonempty(strings_view(v@)),
{
    if v.len() == 0 {
        None
    } else {
        Some(copy_strings(v))
    }
}

/// A copy of `v`, or nothing where `v` is empty.
fn nonempty_envs(v: &Vec<EnvVar>) -> (r: Option<Vec<EnvVar>>)
    ensures
        opt_envs_view(r) == nonempty(envs_view(v@)),
{
    if v.len() == 0 {
        None
    } else {
        Some(copy_envs(v))
    }
}

/// A base container refined by its override.
fn refine<X>(b: PodContainer<X>, o: &Container) -> (r: PodContainer<X>)
    ensures
        r@ == refined(b@, o@),
{
    PodContainer {
        name: b.name,
        image: Some(o.image.clone()),
        command: nonempty_strings(&o.command),
        args: nonempty_strings(&o.args),
        env: nonempty_envs(&o.env),
        extra: b.extra,
    }
}

/// A container built from an override alone.
fn fresh_container<X>(o: &Container) -> (r: PodContainer<X>)
    ensures
        r@ == fresh::<X>(o@),
{
    PodContainer {
        name: o.name.clone(),
        image: Some(o.image.clone()),
        command: nonempty_strings(&o.command),
        args: nonempty_strings(&o.args),
        env: nonempty_envs(&o.env),
        extra: None,
    }
}

/// The containers of a one-off run: each base container that an override
/// names, refined by it (the others are dropped), then a container for each
/// override whose name no base container has.
pub fn merge_job_container<X>(base: Vec<PodContainer<X>>, compare: Vec<Container>) -> (r: Vec<
    PodContainer<X>,
>)
    ensures
        pods_view(r@) == merged(pods_view(base@), containers_view(compare@)),
{
    let ghost bv = pods_view(base@);
    let ghost cv = containers_view(compare@);
    let mut added_v: Vec<PodContainer<X>> = Vec::new();
    let mut j: usize = 0;
    while j < compare.len()
        invariant
            j <= compare.len(),
            bv == pods_view(base@),
            cv == containers_view(compare@),
            pods_view(added_v@) == added(bv, cv, j as nat),
        decreases compare.len() - j,
    {
        let ghost before = added_v@;
        let o = &compare[j];
        assert(cv[j as int] == o@);
        if !contains_name(&base, &o.name) {
            match find_override(&compare, &o.name) {
                Some(k) => {
                    if k == j {
                        added_v.push(fresh_container(o));
                        assert(pods_view(added_v@) =~= pods_view(before).push(fresh::<X>(o@)));
                    }
                },
                None => {
                    assert(cv[j as int].name == o.name@);
                },
            }
        }
        j = j + 1;
    }
    let mut result: Vec<PodContainer<X>> = Vec::new();
    let mut rest = base;
    let ghost n = bv.len();
    let ghost mut i: int = 0;
    while rest.len() > 0
        invariant
            n == bv.len(),
            0 <= i <= n,
            i + rest@.len() == n,
            pods_view(rest@) == bv.subrange(i, n as int),
            pods_view(result@) == merged_base(bv, cv, i as nat),
            cv == containers_view(compare@),
        decreases rest.len(),
    {
        let ghost before = result@;
        let ghost rest_before = rest@;
        let b = rest.remove(0);
        assert(pods_view(rest_before)[0] == b@);
        assert(bv[i] == b@) by {
            assert(bv.subrange(i, n as int)[0] == bv[i]);
        }
        assert(pods_view(rest@) =~= bv.subrange(i + 1, n as int)) by {
            assert forall|k: int| 0 <= k < rest@.len() implies pods_view(rest@)[k] == bv[i + 1
                + k] by {
                assert(rest@[k] == rest_before[k + 1]);
                assert(pods_view(rest_before)[k + 1] == bv.subrange(i, n as int)[k + 1]);
            }
        }
        match find_override(&compare, &b.name) {
            Some(k) => {
                let c = refine(b, &compare[k as usize]);
                result.push(c);
                assert(pods_view(result@) =~= pods_view(before).push(c@));
            },
            None => {},
        }
        proof {
            i = i + 1;
        }
    }
    let ghost base_part = result@;
    let ghost added_part = added_v@;
    result.append(&mut added_v);
    assert(pods_view(result@) =~= pods_view(base_part) + pods_view(added_part));
    result
}

} // verus!
