//! The listing projection: scheduled templates shown in the caller-facing
//! shape, with absent fields shown empty.

use vstd::prelude::*;
use crate::model::{
    containers_view, opt_string_view, pods_view, Container, ContainerView, CronJobData,
    DispatchError, JobSpec, JobTemplate, JobTemplateView, PodContainer, PodContainerView,
    ScheduledTemplate, templates_view,
};

verus! {

/// An optional sequence, empty where absent.
pub open spec fn or_empty<T>(o: Option<Seq<T>>) -> Seq<T> {
    match o {
        Some(s) => s,
        None => seq![],
    }
}

/// How a pod container is shown.
pub open spec fn summary_of<X>(c: PodContainerView<X>) -> ContainerView {
    ContainerView {
        name: c.name,
        image: or_empty(c.image),
        command: or_empty(c.command),
        args: or_empty(c.args),
        env: or_empty(c.env),
    }
}

pub open spec fn summaries_of<X>(cs: Seq<PodContainerView<X>>) -> Seq<ContainerView> {
    cs.map_values(|c: PodContainerView<X>| summary_of(c))
}

/// How a well-formed scheduled template is shown.
pub open spec fn template_summary<X, P>(t: ScheduledTemplate<X, P>) -> JobTemplateView
    recommends
        t.run is Some,
{
    JobTemplateView {
        name: or_empty(opt_string_view(t.name)),
        namespace: or_empty(opt_string_view(t.namespace)),
        containers: summaries_of(pods_view(t.run->0.containers@)),
    }
}

/// Every template has its run template.
pub open spec fn all_well_formed<X, P>(ts: Seq<ScheduledTemplate<X, P>>) -> bool {
    forall|i: int| 0 <= i < ts.len() ==> (#[trigger] ts[i]).run is Some
}

/// A template whose run template holds no containers is well formed, and its
/// summary holds no containers.
pub proof fn lemma_no_containers_projects_empty<X, P>(t: ScheduledTemplate<X, P>)
    requires
        t.run is Some,
        t.run->0.containers@.len() == 0,
    ensures
        all_well_formed(seq![t]),
        template_summary(t).containers == Seq::<ContainerView>::empty(),
{
    assert(template_summary(t).containers =~= Seq::<ContainerView>::empty());
}

fn string_or_empty(o: Option<String>) -> (r: String)
    ensures
        r@ == or_empty(opt_string_view(o)),
{
    match o {
        Some(s) => s,
        None => String::new(),
    }
}

impl Container {
    /// A pod container in the caller-facing shape.
    pub fn new<X>(c: PodContainer<X>) -> (r: Container)
        ensures
            r@ == summary_of(c@),
    {
        let command = match c.command {
            Some(v) => v,
            None => Vec::new(),
        };
        let args = match c.args {
            Some(v) => v,
            None => Vec::new(),
        };
        let env = match c.env {
            Some(v) => v,
            None => Vec::new(),
        };
        let r = Container { name: c.name, image: string_or_empty(c.image), command, args, env };
        assert(r@.command =~= or_empty(c@.command));
        assert(r@.args =~= or_empty(c@.args));
        assert(r@.env =~= or_empty(c@.env));
        r
    }
}

impl JobTemplate {
    /// The summary of a scheduled template; `MalformedTemplate` where it
    /// lacks its run template.
    pub fn new<X, P>(cj: ScheduledTemplate<X, P>) -> (r: Result<JobTemplate, DispatchError>)
        ensures
            cj.run is None <==> r == Err::<JobTemplate, DispatchError>(
                DispatchError::MalformedTemplate,
            ),
            cj.run is Some ==> r is Ok && r->Ok_0@ == template_summary(cj),
    {
        let ghost cj0 = cj;
        let run = match cj.run {
            Some(run) => run,
            None => {
                return Err(DispatchError::MalformedTemplate);
            },
        };
        let mut pods = run.containers;
        let ghost pv = pods_view(pods@);
        let ghost n = pv.len();
        let mut containers: Vec<Container> = Vec::new();
        let ghost mut i: int = 0;
        while pods.len() > 0
            invariant
                n == pv.len(),
                0 <= i <= n,
                i + pods@.len() == n,
                pods_view(pods@) == pv.subrange(i, n as int),
                containers_view(containers@) == summaries_of(pv.take(i)),
            decreases pods.len(),
        {
            let ghost before = containers@;
            let ghost pods_before = pods@;
            let c = pods.remove(0);
            assert(pv[i] == c@) by {
                assert(pods_view(pods_before)[0] == pv.subrange(i, n as int)[0]);
            }
            assert(pods_view(pods@) =~= pv.subrange(i + 1, n as int)) by {
                assert forall|k: int| 0 <= k < pods@.len() implies pods_view(pods@)[k] == pv[i + 1
                    + k] by {
                    assert(pods@[k] == pods_before[k + 1]);
                    assert(pods_view(pods_before)[k + 1] == pv.subrange(i, n as int)[k + 1]);
                }
            }
            let s = Container::new(c);
            containers.push(s);
            assert(containers_view(containers@) =~= summaries_of(pv.take(i + 1))) by {
                assert(containers_view(containers@) =~= containers_view(before).push(s@));
                assert(pv.take(i + 1) =~= pv.take(i).push(pv[i]));
            }
            proof {
                i = i + 1;
            }
        }
        assert(pv.take(i) =~= pv);
        let r = JobTemplate {
            cronjob_data: CronJobData {
                name: string_or_empty(cj.name),
                namespace: string_or_empty(cj.namespace),
            },
            spec: JobSpec { containers },
        };
        Ok(r)
    }
}

/// The summaries of scheduled templates, in order; `MalformedTemplate` where
/// any of them lacks its run template.
pub fn project<X, P>(templates: Vec<ScheduledTemplate<X, P>>) -> (r: Result<
    Vec<JobTemplate>,
    DispatchError,
>)
    ensures
        !all_well_formed(templates@) <==> r == Err::<Vec<JobTemplate>, DispatchError>(
            DispatchError::MalformedTemplate,
        ),
        all_well_formed(templates@) ==> r is Ok && templates_view(r->Ok_0@) == templates@.map_values(
            |t: ScheduledTemplate<X, P>| template_summary(t),
        ),
{
    let ghost ts = templates@;
    let ghost n = ts.len();
    let mut rest = templates;
    let mut out: Vec<JobTemplate> = Vec::new();
    let ghost mut i: int = 0;
    while rest.len() > 0
        invariant
            ts == templates@,
            n == ts.len(),
            0 <= i <= n,
            i + rest@.len() == n,
            rest@ == ts.subrange(i, n as int),
            all_well_formed(ts.take(i)),
            templates_view(out@) == ts.take(i).map_values(
                |t: ScheduledTemplate<X, P>| template_summary(t),
            ),
        decreases rest.len(),
    {
        let ghost before = out@;
        let t = rest.remove(0);
        assert(t == ts[i]);
        assert(rest@ =~= ts.subrange(i + 1, n as int));
        match JobTemplate::new(t) {
            Ok(s) => {
                out.push(s);
                assert(ts.take(i + 1) =~= ts.take(i).push(ts[i]));
                assert(templates_view(out@) =~= templates_view(before).push(s@));
                assert(templates_view(out@) =~= ts.take(i + 1).map_values(
                    |t: ScheduledTemplate<X, P>| template_summary(t),
                ));
            },
            Err(e) => {
                assert(!all_well_formed(ts));
                return Err(e);
            },
        }
        proof {
            i = i + 1;
        }
    }
    assert(ts.take(i) =~= ts);
    Ok(out)
}

} // verus!
