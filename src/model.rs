//! The library's data: the caller-facing container shape, the containers of a
//! pod template, scheduled templates, and their mathematical views.

use vstd::prelude::*;

verus! {

/// An environment variable: a key and an optional value.
pub struct EnvVar {
    pub name: String,
    pub value: Option<String>,
}

pub struct EnvVarView {
    pub name: Seq<char>,
    pub value: Option<Seq<char>>,
}

pub open spec fn opt_string_view(o: Option<String>) -> Option<Seq<char>> {
    match o {
        Some(s) => Some(s@),
        None => None,
    }
}

impl View for EnvVar {
    type V = EnvVarView;

    open spec fn view(&self) -> EnvVarView {
        EnvVarView { name: self.name@, value: opt_string_view(self.value) }
    }
}

pub open spec fn strings_view(v: Seq<String>) -> Seq<Seq<char>> {
    v.map_values(|s: String| s@)
}

pub open spec fn envs_view(v: Seq<EnvVar>) -> Seq<EnvVarView> {
    v.map_values(|e: EnvVar| e@)
}

/// A container as the caller sees it: in an override, and in a listing.
/// Absent sequences upstream are empty here.
pub struct Container {
    pub name: String,
    pub image: String,
    pub command: Vec<String>,
    pub args: Vec<String>,
    pub env: Vec<EnvVar>,
}

pub struct ContainerView {
    pub name: Seq<char>,
    pub image: Seq<char>,
    pub command: Seq<Seq<char>>,
    pub args: Seq<Seq<char>>,
    pub env: Seq<EnvVarView>,
}

impl View for Container {
    type V = ContainerView;

    open spec fn view(&self) -> ContainerView {
        ContainerView {
            name: self.name@,
            image: self.image@,
            command: strings_view(self.command@),
            args: strings_view(self.args@),
            env: envs_view(self.env@),
        }
    }
}

pub open spec fn containers_view(v: Seq<Container>) -> Seq<ContainerView> {
    v.map_values(|c: Container| c@)
}

/// A container of a pod template. The fields the library reads or sets are
/// plain values; `extra` carries the rest of the container (ports, resources,
/// volume mounts, ...) through untouched, and is absent for a container that
/// the library builds from an override alone.
pub struct PodContainer<X> {
    pub name: String,
    pub image: Option<String>,
    pub command: Option<Vec<String>>,
    pub args: Option<Vec<String>>,
    pub env: Option<Vec<EnvVar>>,
    pub extra: Option<X>,
}

pub struct PodContainerView<X> {
    pub name: Seq<char>,
    pub image: Option<Seq<char>>,
    pub command: Option<Seq<Seq<char>>>,
    pub args: Option<Seq<Seq<char>>>,
    pub env: Option<Seq<EnvVarView>>,
    pub extra: Option<X>,
}

pub open spec fn opt_strings_view(o: Option<Vec<String>>) -> Option<Seq<Seq<char>>> {
    match o {
        Some(v) => Some(strings_view(v@)),
        None => None,
    }
}

pub open spec fn opt_envs_view(o: Option<Vec<EnvVar>>) -> Option<Seq<EnvVarView>> {
    match o {
        Some(v) => Some(envs_view(v@)),
        None => None,
    }
}

impl<X> View for PodContainer<X> {
    type V = PodContainerView<X>;

    open spec fn view(&self) -> PodContainerView<X> {
        PodContainerView {
            name: self.name@,
            image: opt_string_view(self.image),
            command: opt_strings_view(self.command),
            args: opt_strings_view(self.args),
            env: opt_envs_view(self.env),
            extra: self.extra,
        }
    }
}

pub open spec fn pods_view<X>(v: Seq<PodContainer<X>>) -> Seq<PodContainerView<X>> {
    v.map_values(|c: PodContainer<X>| c@)
}

/// The run template nested in a scheduled template: the containers of its
/// pod, and in `rest` the remainder of the job and pod specification, which
/// the library passes on untouched.
pub struct RunTemplate<X, P> {
    pub containers: Vec<PodContainer<X>>,
    pub rest: P,
}

/// A scheduled workload template as read from the catalog. `run` is absent
/// where the template lacks its nested job or pod specification.
pub struct ScheduledTemplate<X, P> {
    pub name: Option<String>,
    pub namespace: Option<String>,
    pub run: Option<RunTemplate<X, P>>,
}

/// The identity of a scheduled template.
pub struct CronJobData {
    pub name: String,
    pub namespace: String,
}

/// The containers of a template's summary, or of a merge request's overrides.
pub struct JobSpec {
    pub containers: Vec<Container>,
}

/// A template's identity with a container sequence: the summary that a
/// listing shows, and the body of a request for a one-off run.
pub struct JobTemplate {
    pub cronjob_data: CronJobData,
    pub spec: JobSpec,
}

pub struct JobTemplateView {
    pub name: Seq<char>,
    pub namespace: Seq<char>,
    pub containers: Seq<ContainerView>,
}

impl View for JobTemplate {
    type V = JobTemplateView;

    open spec fn view(&self) -> JobTemplateView {
        JobTemplateView {
            name: self.cronjob_data.name@,
            namespace: self.cronjob_data.namespace@,
            containers: containers_view(self.spec.containers@),
        }
    }
}

pub open spec fn templates_view(v: Seq<JobTemplate>) -> Seq<JobTemplateView> {
    v.map_values(|t: JobTemplate| t@)
}

/// Why a dispatch or a listing failed. The variants that carry a message
/// carry the upstream text verbatim.
pub enum DispatchError {
    TemplateNotFound(String),
    CatalogUnavailable(String),
    MalformedTemplate,
    SubmissionRejected(String),
}

/// A copy of a string sequence.
pub fn copy_strings(v: &Vec<String>) -> (r: Vec<String>)
    ensures
        r@ == v@,
{
    let mut r: Vec<String> = Vec::new();
    let mut i: usize = 0;
    while i < v.len()
        invariant
            i <= v.len(),
            r@ == v@.take(i as int),
        decreases v.len() - i,
    {
        r.push(v[i].clone());
        i = i + 1;
        assert(r@ =~= v@.take(i as int));
    }
    assert(v@.take(i as int) =~= v@);
    r
}

/// A copy of an environment variable.
pub fn copy_env_var(e: &EnvVar) -> (r: EnvVar)
    ensures
        r == *e,
{
    let value = match &e.value {
        Some(s) => Some(s.clone()),
        None => None,
    };
    EnvVar { name: e.name.clone(), value }
}

/// A copy of a sequence of environment variables.
pub fn copy_envs(v: &Vec<EnvVar>) -> (r: Vec<EnvVar>)
    ensures
        r@ == v@,
{
    let mut r: Vec<EnvVar> = Vec::new();
    let mut i: usize = 0;
    while i < v.len()
        invariant
            i <= v.len(),
            r@ == v@.take(i as int),
        decreases v.len() - i,
    {
        r.push(copy_env_var(&v[i]));
        i = i + 1;
        assert(r@ =~= v@.take(i as int));
    }
    assert(v@.take(i as int) =~= v@);
    r
}

} // verus!
