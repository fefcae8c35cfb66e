//! The dispatch decisions. The caller reads the template from the catalog,
//! hands the answer here, submits the run that comes back, and hands the
//! submission's answer back for the reply. Nothing here is retried.

use vstd::prelude::*;
use vstd::string::*;
use crate::listing::{all_well_formed, project, template_summary};
use crate::merge::{merge_job_container, merged};
use crate::model::{
    containers_view, pods_view, templates_view, DispatchError, JobTemplate, PodContainer,
    PodContainerView, ScheduledTemplate,
};
use crate::naming::{is_suffix, random_suffix, run_name, run_name_with_suffix};

verus! {

pub const STATUS_OK: u16 = 200;

pub const STATUS_CREATED: u16 = 201;

pub const STATUS_BAD_REQUEST: u16 = 400;

pub const STATUS_INTERNAL_ERROR: u16 = 500;

/// Why a read from the catalog failed, with the upstream text.
pub enum CatalogError {
    NotFound(String),
    Unavailable(String),
}

/// A one-off run ready to be submitted: its generated name, its namespace,
/// the merged containers, and the rest of the template's job specification.
pub struct JobRun<X, P> {
    pub name: String,
    pub namespace: String,
    pub containers: Vec<PodContainer<X>>,
    pub rest: P,
}

pub struct JobRunView<X, P> {
    pub name: Seq<char>,
    pub namespace: Seq<char>,
    pub containers: Seq<PodContainerView<X>>,
    pub rest: P,
}

impl<X, P> View for JobRun<X, P> {
    type V = JobRunView<X, P>;

    open spec fn view(&self) -> JobRunView<X, P> {
        JobRunView {
            name: self.name@,
            namespace: self.namespace@,
            containers: pods_view(self.containers@),
            rest: self.rest,
        }
    }
}

/// A status code and the text of the reply's `message`.
pub struct Reply {
    pub status: u16,
    pub message: String,
}

/// What a dispatch yields for a request, the catalog's answer and a suffix:
/// a failed read passes its text on; a template without its run template is
/// malformed; otherwise the run is named after the requested template, lives
/// in its namespace, and holds the merged containers.
pub open spec fn prepared<X, P>(
    request: JobTemplate,
    fetched: Result<ScheduledTemplate<X, P>, CatalogError>,
    suffix: Seq<char>,
    r: Result<JobRun<X, P>, DispatchError>,
) -> bool {
    match fetched {
        Err(CatalogError::NotFound(m)) => r == Err::<JobRun<X, P>, DispatchError>(
            DispatchError::TemplateNotFound(m),
        ),
        Err(CatalogError::Unavailable(m)) => r == Err::<JobRun<X, P>, DispatchError>(
            DispatchError::CatalogUnavailable(m),
        ),
        Ok(t) => match t.run {
            None => r == Err::<JobRun<X, P>, DispatchError>(DispatchError::MalformedTemplate),
            Some(run) => r is Ok && r->Ok_0@ == (JobRunView {
                name: run_name(request.cronjob_data.name@, suffix),
                namespace: request.cronjob_data.namespace@,
                containers: merged(
                    pods_view(run.containers@),
                    containers_view(request.spec.containers@),
                ),
                rest: run.rest,
            }),
        },
    }
}

/// The text that a reply shows for an error.
pub open spec fn error_message(e: DispatchError) -> Seq<char> {
    match e {
        DispatchError::TemplateNotFound(m) => m@,
        DispatchError::CatalogUnavailable(m) => m@,
        DispatchError::MalformedTemplate => "the template has no job or pod specification"@,
        DispatchError::SubmissionRejected(m) => m@,
    }
}

/// The text that a reply shows for a created run.
pub open spec fn created_message(name: Seq<char>) -> Seq<char> {
    "job '"@ + name + "' was created"@
}

impl DispatchError {
    /// The text that a reply shows for this error.
    pub fn message(self) -> (r: String)
        ensures
            r@ == error_message(self),
    {
        match self {
            DispatchError::TemplateNotFound(m) => m,
            DispatchError::CatalogUnavailable(m) => m,
            DispatchError::MalformedTemplate => {
                proof {
                    reveal_strlit("the template has no job or pod specification");
                }
                String::from_str("the template has no job or pod specification")
            },
            DispatchError::SubmissionRejected(m) => m,
        }
    }
}

/// The run for a request, given the catalog's answer and a name suffix.
pub fn prepare_job<X, P>(
    request: JobTemplate,
    fetched: Result<ScheduledTemplate<X, P>, CatalogError>,
    suffix: &str,
) -> (r: Result<JobRun<X, P>, DispatchError>)
    ensures
        prepared(request, fetched, suffix@, r),
{
    match fetched {
        Err(CatalogError::NotFound(m)) => Err(DispatchError::TemplateNotFound(m)),
        Err(CatalogError::Unavailable(m)) => Err(DispatchError::CatalogUnavailable(m)),
        Ok(t) => match t.run {
            None => Err(DispatchError::MalformedTemplate),
            Some(run) => {
                let name = run_name_with_suffix(request.cronjob_data.name.as_str(), suffix);
                let containers = merge_job_container(run.containers, request.spec.containers);
                Ok(JobRun { name, namespace: request.cronjob_data.namespace, containers, rest: run.rest })
            },
        },
    }
}

/// The run for a request, given the catalog's answer, under a freshly drawn
/// name.
pub fn create_job<X, P>(
    request: JobTemplate,
    fetched: Result<ScheduledTemplate<X, P>, CatalogError>,
) -> (r: Result<JobRun<X, P>, DispatchError>)
    ensures
        exists|suffix: Seq<char>| is_suffix(suffix) && prepared(request, fetched, suffix, r),
{
    let suffix = random_suffix();
    let r = prepare_job(request, fetched, suffix.as_str());
    assert(is_suffix(suffix@) && prepared(request, fetched, suffix@, r));
    r
}

/// The reply to a dispatch that failed before submission.
pub fn error_reply(e: DispatchError) -> (r: Reply)
    ensures
        r.status == STATUS_BAD_REQUEST,
        r.message@ == error_message(e),
{
    Reply { status: STATUS_BAD_REQUEST, message: e.message() }
}

/// The reply once the run named `name` was submitted: created, or rejected
/// with the upstream text.
pub fn created_reply(name: &str, created: Result<(), String>) -> (r: Reply)
    ensures
        created is Ok ==> r.status == STATUS_CREATED && r.message@ == created_message(name@),
        created is Err ==> r.status == STATUS_BAD_REQUEST && r.message@ == error_message(
            DispatchError::SubmissionRejected(created->Err_0),
        ),
{
    match created {
        Ok(()) => {
            let mut m = String::from_str("job '");
            m.append(name);
            m.append("' was created");
            proof {
                reveal_strlit("job '");
                reveal_strlit("' was created");
            }
            Reply { status: STATUS_CREATED, message: m }
        },
        Err(e) => error_reply(DispatchError::SubmissionRejected(e)),
    }
}

/// The namespace that a listing reads: the one given, or the empty one.
pub fn listing_namespace(namespace: Option<String>) -> (r: String)
    ensures
        namespace is Some ==> r == namespace->0,
        namespace is None ==> r@.len() == 0,
{
    match namespace {
        Some(n) => n,
        None => String::new(),
    }
}

/// The answer to a listing, given the catalog's answer: the summaries, or a
/// reply with an internal error that carries the upstream text.
pub fn list_cronjobs<X, P>(fetched: Result<Vec<ScheduledTemplate<X, P>>, CatalogError>) -> (r: Result<
    Vec<JobTemplate>,
    Reply,
>)
    ensures
        match fetched {
            Err(CatalogError::NotFound(m)) => r is Err && r->Err_0.status == STATUS_INTERNAL_ERROR
                && r->Err_0.message@ == m@,
            Err(CatalogError::Unavailable(m)) => r is Err && r->Err_0.status
                == STATUS_INTERNAL_ERROR && r->Err_0.message@ == m@,
            Ok(ts) => if all_well_formed(ts@) {
                r is Ok && templates_view(r->Ok_0@) == ts@.map_values(
                    |t: ScheduledTemplate<X, P>| template_summary(t),
                )
            } else {
                r is Err && r->Err_0.status == STATUS_INTERNAL_ERROR && r->Err_0.message@
                    == error_message(DispatchError::MalformedTemplate)
            },
        },
{
    match fetched {
        Err(CatalogError::NotFound(m)) => Err(Reply { status: STATUS_INTERNAL_ERROR, message: m }),
        Err(CatalogError::Unavailable(m)) => Err(
            Reply { status: STATUS_INTERNAL_ERROR, message: m },
        ),
        Ok(ts) => match project(ts) {
            Ok(summaries) => Ok(summaries),
            Err(e) => Err(Reply { status: STATUS_INTERNAL_ERROR, message: e.message() }),
        },
    }
}

} // verus!
