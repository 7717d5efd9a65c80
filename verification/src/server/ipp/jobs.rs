//! The table of jobs, and what each operation does with it.

use super::message::{
    encode_message, Message, OP_CANCEL_JOB, OP_CREATE_JOB, OP_GET_JOBS, OP_GET_JOB_ATTRIBUTES,
    OP_GET_PRINTER_ATTRIBUTES, OP_PRINT_JOB, OP_SEND_DOCUMENT, OP_VALIDATE_JOB,
};
use super::metadata::{attributes_to_metadata, metadata_of};
use super::printer::{printer_attributes_response, printer_message};
use super::request::{
    integer_of, parse_request, string_of, Attributes, IppError, ParsedIppRequest, RequestView,
};
use super::responses::{
    job_message, job_response, not_found_message, not_found_response, not_supported_message,
    operation_not_supported_response, success_message, success_response, JOB_CANCELED,
    JOB_COMPLETED, JOB_PENDING, JOB_PROCESSING,
};
use super::tracking::{job_message_tells, short_enough, tells};
use crate::notation::{decimal, push_decimal};
use crate::storage::{no_metadata, JobMetadata, MetadataView};
use crate::text::{option_text, owned};
use std::collections::HashMap;
use vstd::prelude::*;

verus! {

/// A job that was announced.
#[derive(Debug)]
pub struct IppJobRecord {
    pub id: u32,
    pub name: String,
    pub user: String,
    pub state: i32,
    pub document_format: String,
    pub saved_path: Option<String>,
}

/// What an [`IppJobRecord`] holds.
pub struct JobView {
    pub id: u32,
    pub name: Seq<char>,
    pub user: Seq<char>,
    pub state: i32,
    pub document_format: Seq<char>,
    pub saved_path: Option<Seq<char>>,
}

impl View for IppJobRecord {
    type V = JobView;

    open spec fn view(&self) -> JobView {
        JobView {
            id: self.id,
            name: self.name@,
            user: self.user@,
            state: self.state,
            document_format: self.document_format@,
            saved_path: option_text(self.saved_path),
        }
    }
}

/// The jobs that were announced, and the port under which the printer is
/// reached.
pub struct IppState {
    ipp_port: u16,
    next_job_id: u32,
    jobs: HashMap<u32, IppJobRecord>,
}

/// What an [`IppState`] holds.
pub struct StateView {
    pub ipp_port: u16,
    pub next_job_id: u32,
    pub jobs: Map<u32, JobView>,
}

/// What the records of a table hold.
pub open spec fn job_views(jobs: Map<u32, IppJobRecord>) -> Map<u32, JobView> {
    jobs.map_values(|job: IppJobRecord| job@)
}

/// Whether every job stands under its own number.
pub open spec fn consistent(state: StateView) -> bool {
    forall|id: u32| #[trigger] state.jobs.contains_key(id) ==> state.jobs[id].id == id
}

impl View for IppState {
    type V = StateView;

    closed spec fn view(&self) -> StateView {
        StateView {
            ipp_port: self.ipp_port,
            next_job_id: self.next_job_id,
            jobs: job_views(self.jobs@),
        }
    }
}

/// A document that has to be saved, and the job that it belongs to.
#[derive(Debug)]
pub struct PendingSave {
    pub id: u32,
    pub name: String,
    pub user: String,
    pub metadata: JobMetadata,
}

/// What a [`PendingSave`] holds.
pub struct PendingView {
    pub id: u32,
    pub name: Seq<char>,
    pub user: Seq<char>,
    pub metadata: MetadataView,
}

impl View for PendingSave {
    type V = PendingView;

    open spec fn view(&self) -> PendingView {
        PendingView {
            id: self.id,
            name: self.name@,
            user: self.user@,
            metadata: self.metadata@,
        }
    }
}

/// What has to be done about a request.
#[derive(Debug)]
pub enum IppAction {
    /// The answer is there.
    Reply(Vec<u8>),
    /// The document of the request has to be saved first.
    Save { request: ParsedIppRequest, pending: PendingSave },
}

/// What an [`IppAction`] holds.
pub enum ActionView {
    Reply(Seq<u8>),
    Save { request: RequestView, pending: PendingView },
}

impl View for IppAction {
    type V = ActionView;

    open spec fn view(&self) -> ActionView {
        match self {
            IppAction::Reply(bytes) => ActionView::Reply(bytes@),
            IppAction::Save { request, pending } => ActionView::Save {
                request: request@,
                pending: pending@,
            },
        }
    }
}

// What each operation does --------------------------------------------------

/// The number that follows `id`: numbers start over when they run out.
pub open spec fn id_after(id: u32) -> u32 {
    if id == u32::MAX {
        0
    } else {
        (id + 1) as u32
    }
}

/// The name of a new job: the one that the request gives it, else one made of
/// its number.
pub open spec fn new_name(attributes: Attributes, id: u32) -> Seq<char> {
    match string_of(attributes, "job-name"@) {
        Some(name) => name,
        None => "ipp-job-"@ + decimal(id as nat),
    }
}

/// The user of a new job.
pub open spec fn new_user(attributes: Attributes) -> Seq<char> {
    match string_of(attributes, "requesting-user-name"@) {
        Some(user) => user,
        None => "unknown"@,
    }
}

/// The document format of a new job.
pub open spec fn new_format(attributes: Attributes) -> Seq<char> {
    match string_of(attributes, "document-format"@) {
        Some(format) => format,
        None => "application/octet-stream"@,
    }
}

/// A new job.
pub open spec fn new_job(attributes: Attributes, id: u32, state: i32) -> JobView {
    JobView {
        id,
        name: new_name(attributes, id),
        user: new_user(attributes),
        state,
        document_format: new_format(attributes),
        saved_path: None,
    }
}

/// The table with a new job, which takes the next number.
pub open spec fn with_new_job(state: StateView, attributes: Attributes, job_state: i32) -> StateView {
    StateView {
        ipp_port: state.ipp_port,
        next_job_id: id_after(state.next_job_id),
        jobs: state.jobs.insert(
            state.next_job_id,
            new_job(attributes, state.next_job_id, job_state),
        ),
    }
}

/// The job that a request speaks of.
pub open spec fn requested_job(attributes: Attributes) -> Option<u32> {
    match integer_of(attributes, "job-id"@) {
        Some(id) => if id >= 0 {
            Some(id as u32)
        } else {
            None
        },
        None => None,
    }
}

/// What is kept of a document that came over IPP.
pub open spec fn ipp_metadata(
    user: Seq<char>,
    name: Seq<char>,
    document_format: Seq<char>,
    attributes: Attributes,
) -> MetadataView {
    MetadataView {
        protocol: "IPP"@,
        user: Some(user),
        job_name: Some(name),
        document_format: Some(document_format),
        attributes: metadata_of(attributes),
        ..no_metadata()
    }
}

/// The document of a Print-Job request: that of a new job.
pub open spec fn printed(state: StateView, attributes: Attributes) -> PendingView {
    let job = new_job(attributes, state.next_job_id, JOB_PROCESSING);
    PendingView {
        id: job.id,
        name: job.name,
        user: job.user,
        metadata: ipp_metadata(job.user, job.name, job.document_format, attributes),
    }
}

/// The document of a Send-Document request: that of a job that is there.
pub open spec fn sent(job: JobView, id: u32, attributes: Attributes) -> PendingView {
    let document_format = match string_of(attributes, "document-format"@) {
        Some(format) => format,
        None => job.document_format,
    };
    PendingView {
        id,
        name: job.name,
        user: job.user,
        metadata: ipp_metadata(job.user, job.name, document_format, attributes),
    }
}

/// The table after the document of a job was saved.
pub open spec fn with_saved(state: StateView, id: u32, path: Seq<char>) -> StateView {
    if state.jobs.contains_key(id) {
        StateView {
            jobs: state.jobs.insert(
                id,
                JobView {
                    state: JOB_COMPLETED,
                    saved_path: Some(path),
                    ..state.jobs[id]
                },
            ),
            ..state
        }
    } else {
        state
    }
}

/// The table after a job was called off.
pub open spec fn with_canceled(state: StateView, id: u32) -> StateView {
    StateView {
        jobs: state.jobs.insert(id, JobView { state: JOB_CANCELED, ..state.jobs[id] }),
        ..state
    }
}

/// What is said of the job with the number `id`.
pub open spec fn said_of(request: RequestView, id: u32, job: JobView, ipp_port: u16) -> Message {
    job_message(request, id, job.name, job.user, job.state, ipp_port)
}

/// A reply, with the table that it leaves behind.
pub open spec fn reply(state: StateView, message: Message) -> (
    StateView,
    Result<ActionView, IppError>,
) {
    (state, Ok(ActionView::Reply(encode_message(message))))
}

/// What is done about a request: the table afterwards, and the action, or the
/// error with which the request is refused.
pub open spec fn handled(state: StateView, request: RequestView) -> (
    StateView,
    Result<ActionView, IppError>,
) {
    let attributes = request.attributes;
    let port = state.ipp_port;
    if request.operation == OP_GET_PRINTER_ATTRIBUTES {
        reply(state, printer_message(request, port))
    } else if request.operation == OP_VALIDATE_JOB || request.operation == OP_GET_JOBS {
        reply(state, success_message(request))
    } else if request.operation == OP_PRINT_JOB {
        (
            with_new_job(state, attributes, JOB_PROCESSING),
            Ok(ActionView::Save { request, pending: printed(state, attributes) }),
        )
    } else if request.operation == OP_CREATE_JOB {
        reply(
            with_new_job(state, attributes, JOB_PENDING),
            said_of(
                request,
                state.next_job_id,
                new_job(attributes, state.next_job_id, JOB_PENDING),
                port,
            ),
        )
    } else if request.operation == OP_SEND_DOCUMENT {
        match requested_job(attributes) {
            None => (state, Err(IppError::SendDocumentWithoutJobId)),
            Some(id) => if state.jobs.contains_key(id) {
                (
                    state,
                    Ok(
                        ActionView::Save {
                            request,
                            pending: sent(state.jobs[id], id, attributes),
                        },
                    ),
                )
            } else {
                reply(state, not_found_message(request))
            },
        }
    } else if request.operation == OP_GET_JOB_ATTRIBUTES {
        match requested_job(attributes) {
            None => (state, Err(IppError::GetJobAttributesWithoutJobId)),
            Some(id) => if state.jobs.contains_key(id) {
                reply(state, said_of(request, id, state.jobs[id], port))
            } else {
                reply(state, not_found_message(request))
            },
        }
    } else if request.operation == OP_CANCEL_JOB {
        match requested_job(attributes) {
            Some(id) => if state.jobs.contains_key(id) {
                reply(
                    with_canceled(state, id),
                    said_of(request, id, with_canceled(state, id).jobs[id], port),
                )
            } else {
                reply(state, not_found_message(request))
            },
            None => reply(state, not_found_message(request)),
        }
    } else {
        reply(state, not_supported_message(request))
    }
}

/// What is done about a request body.
pub open spec fn processed(state: StateView, body: Seq<u8>) -> (
    StateView,
    Result<ActionView, IppError>,
) {
    match parse_request(body) {
        Ok(request) => handled(state, request),
        Err(error) => (state, Err(error)),
    }
}

// The operations ------------------------------------------------------------

/// The job that a request speaks of.
fn job_id_of(request: &ParsedIppRequest) -> (id: Option<u32>)
    ensures
        id == requested_job(request@.attributes),
{
    match request.get_i32("job-id") {
        Some(id) => if id >= 0 {
            Some(id as u32)
        } else {
            None
        },
        None => None,
    }
}

/// What is kept of a document that came over IPP.
fn ipp_job_metadata(
    request: &ParsedIppRequest,
    user: &String,
    name: &String,
    document_format: String,
) -> (metadata: JobMetadata)
    ensures
        metadata@ == ipp_metadata(user@, name@, document_format@, request@.attributes),
{
    let mut metadata = JobMetadata::default();
    metadata.protocol = owned("IPP");
    metadata.user = Some(user.clone());
    metadata.job_name = Some(name.clone());
    metadata.document_format = Some(document_format);
    metadata.attributes = attributes_to_metadata(request);
    metadata
}

impl IppState {
    #[verifier::type_invariant]
    spec fn jobs_stand_in_place(&self) -> bool {
        consistent(self@)
    }

    /// No jobs yet. The first one gets the number one.
    pub fn new(ipp_port: u16) -> (state: Self)
        ensures
            state@ == (StateView { ipp_port, next_job_id: 1, jobs: Map::empty() }),
            consistent(state@),
    {
        let jobs: HashMap<u32, IppJobRecord> = HashMap::new();
        assert(job_views(jobs@) =~= Map::empty());
        IppState { ipp_port, next_job_id: 1, jobs }
    }

    /// The record of a job.
    pub fn job(&self, id: u32) -> (job: Option<&IppJobRecord>)
        ensures
            match job {
                Some(record) => {
                    &&& self@.jobs.contains_key(id)
                    &&& self@.jobs[id] == record@
                    &&& record@.id == id
                },
                None => !self@.jobs.contains_key(id),
            },
    {
        broadcast use vstd::std_specs::hash::group_hash_axioms;

        proof {
            use_type_invariant(self);
        }
        self.jobs.get(&id)
    }

    /// Puts a record into the table, in place of one with its number.
    fn put(&mut self, id: u32, record: IppJobRecord)
        requires
            record@.id == id,
        ensures
            final(self)@ == (StateView {
                jobs: old(self)@.jobs.insert(id, record@),
                ..old(self)@
            }),
    {
        broadcast use vstd::std_specs::hash::group_hash_axioms;

        proof {
            use_type_invariant(&*self);
        }
        let mut jobs: HashMap<u32, IppJobRecord> = HashMap::new();
        assert(job_views(jobs@) =~= Map::empty());
        std::mem::swap(&mut jobs, &mut self.jobs);
        jobs.insert(id, record);
        assert(job_views(jobs@) =~= old(self)@.jobs.insert(id, record@));
        self.jobs = jobs;
    }

    /// Takes the record of a job out of the table.
    fn take(&mut self, id: u32) -> (record: Option<IppJobRecord>)
        ensures
            match record {
                Some(job) => {
                    &&& old(self)@.jobs.contains_key(id)
                    &&& job@ == old(self)@.jobs[id]
                    &&& job@.id == id
                    &&& final(self)@ == (StateView {
                        jobs: old(self)@.jobs.remove(id),
                        ..old(self)@
                    })
                },
                None => !old(self)@.jobs.contains_key(id) && final(self)@ == old(self)@,
            },
    {
        broadcast use vstd::std_specs::hash::group_hash_axioms;

        proof {
            use_type_invariant(&*self);
        }
        let mut jobs: HashMap<u32, IppJobRecord> = HashMap::new();
        assert(job_views(jobs@) =~= Map::empty());
        std::mem::swap(&mut jobs, &mut self.jobs);
        let record = jobs.remove(&id);
        assert(record is Some ==> old(self)@.jobs.contains_key(id));
        assert(record is Some ==> job_views(jobs@) =~= old(self)@.jobs.remove(id));
        assert(record is None ==> job_views(jobs@) =~= old(self)@.jobs);
        self.jobs = jobs;
        record
    }

    /// Takes the next number and enters a new job under it.
    fn announce(&mut self, request: &ParsedIppRequest, job_state: i32) -> (job: (
        u32,
        String,
        String,
        String,
    ))
        ensures
            final(self)@ == with_new_job(old(self)@, request@.attributes, job_state),
            job.0 == old(self)@.next_job_id,
            job.1@ == new_name(request@.attributes, job.0),
            job.2@ == new_user(request@.attributes),
            job.3@ == new_format(request@.attributes),
    {
        proof {
            use_type_invariant(&*self);
        }
        let id = self.next_job_id;
        self.next_job_id = id.wrapping_add(1);
        let name = match request.get_string("job-name") {
            Some(name) => name,
            None => {
                let mut name = owned("ipp-job-");
                push_decimal(&mut name, id as u64);
                name
            },
        };
        let user = match request.get_string("requesting-user-name") {
            Some(user) => user,
            None => owned("unknown"),
        };
        let document_format = match request.get_string("document-format") {
            Some(format) => format,
            None => owned("application/octet-stream"),
        };
        self.put(
            id,
            IppJobRecord {
                id,
                name: name.clone(),
                user: user.clone(),
                state: job_state,
                document_format: document_format.clone(),
                saved_path: None,
            },
        );
        (id, name, user, document_format)
    }
}

/// Begins a Print-Job: enters a new job, whose document has to be saved.
pub fn print_job(state: &mut IppState, request: &ParsedIppRequest) -> (pending: PendingSave)
    ensures
        final(state)@ == with_new_job(old(state)@, request@.attributes, JOB_PROCESSING),
        pending@ == printed(old(state)@, request@.attributes),
{
    let (id, name, user, document_format) = state.announce(request, JOB_PROCESSING);
    let metadata = ipp_job_metadata(request, &user, &name, document_format);
    PendingSave { id, name, user, metadata }
}

/// Create-Job: enters a new job, which waits for its document.
pub fn create_job(state: &mut IppState, request: &ParsedIppRequest) -> (answer: Result<
    Vec<u8>,
    IppError,
>)
    ensures
        final(state)@ == with_new_job(old(state)@, request@.attributes, JOB_PENDING),
        answer matches Ok(bytes) && bytes@ == encode_message(
            said_of(
                request@,
                old(state)@.next_job_id,
                new_job(request@.attributes, old(state)@.next_job_id, JOB_PENDING),
                old(state)@.ipp_port,
            ),
        ),
{
    let (id, name, user, _) = state.announce(request, JOB_PENDING);
    Ok(job_response(request, id, name.as_str(), user.as_str(), JOB_PENDING, state.ipp_port))
}

/// Begins a Send-Document: the document of a job that is there has to be saved.
pub fn send_document(state: &IppState, request: &ParsedIppRequest) -> (pending: Result<
    Option<PendingSave>,
    IppError,
>)
    ensures
        match requested_job(request@.attributes) {
            None => pending == Err::<Option<PendingSave>, IppError>(
                IppError::SendDocumentWithoutJobId,
            ),
            Some(id) => if state@.jobs.contains_key(id) {
                pending matches Ok(Some(save)) && save@ == sent(
                    state@.jobs[id],
                    id,
                    request@.attributes,
                )
            } else {
                pending == Ok::<Option<PendingSave>, IppError>(None)
            },
        },
{
    let id = match job_id_of(request) {
        Some(id) => id,
        None => {
            return Err(IppError::SendDocumentWithoutJobId);
        },
    };
    match state.job(id) {
        Some(job) => {
            let document_format = match request.get_string("document-format") {
                Some(format) => format,
                None => job.document_format.clone(),
            };
            let metadata = ipp_job_metadata(request, &job.user, &job.name, document_format);
            Ok(
                Some(
                    PendingSave { id, name: job.name.clone(), user: job.user.clone(), metadata },
                ),
            )
        },
        None => Ok(None),
    }
}

/// Ends a Print-Job or a Send-Document, once the document has been saved: marks
/// the job, where it is still there, and answers.
pub fn document_saved(
    state: &mut IppState,
    request: &ParsedIppRequest,
    pending: &PendingSave,
    saved_path: String,
) -> (bytes: Vec<u8>)
    ensures
        consistent(final(state)@),
        final(state)@ == with_saved(old(state)@, pending@.id, saved_path@),
        bytes@ == encode_message(
            job_message(
                request@,
                pending@.id,
                pending@.name,
                pending@.user,
                JOB_COMPLETED,
                old(state)@.ipp_port,
            ),
        ),
        short_enough(pending@.name, pending@.user) ==> tells(
            bytes@,
            request@,
            pending@.id,
            pending@.name,
            pending@.user,
            9,
            old(state)@.ipp_port,
        ),
{
    proof {
        use_type_invariant(&*state);
        if short_enough(pending@.name, pending@.user) {
            job_message_tells(
                request@,
                pending@.id,
                pending@.name,
                pending@.user,
                JOB_COMPLETED,
                state@.ipp_port,
            );
        }
    }
    if let Some(job) = state.take(pending.id) {
        let mut job = job;
        job.state = JOB_COMPLETED;
        job.saved_path = Some(saved_path);
        state.put(pending.id, job);
    }
    assert(state@.jobs =~= with_saved(old(state)@, pending@.id, saved_path@).jobs);
    job_response(
        request,
        pending.id,
        pending.name.as_str(),
        pending.user.as_str(),
        JOB_COMPLETED,
        state.ipp_port,
    )
}

/// Get-Job-Attributes: tells how a job is doing.
pub fn get_job_attributes(state: &IppState, request: &ParsedIppRequest) -> (answer: Result<
    Vec<u8>,
    IppError,
>)
    ensures
        match requested_job(request@.attributes) {
            None => answer == Err::<Vec<u8>, IppError>(IppError::GetJobAttributesWithoutJobId),
            Some(id) => answer matches Ok(bytes) && bytes@ == encode_message(
                if state@.jobs.contains_key(id) {
                    said_of(request@, id, state@.jobs[id], state@.ipp_port)
                } else {
                    not_found_message(request@)
                },
            ),
        },
{
    let id = match job_id_of(request) {
        Some(id) => id,
        None => {
            return Err(IppError::GetJobAttributesWithoutJobId);
        },
    };
    match state.job(id) {
        Some(job) => Ok(
            job_response(
                request,
                job.id,
                job.name.as_str(),
                job.user.as_str(),
                job.state,
                state.ipp_port,
            ),
        ),
        None => Ok(not_found_response(request)),
    }
}

/// Cancel-Job: calls a job off.
pub fn cancel_job(state: &mut IppState, request: &ParsedIppRequest) -> (answer: Result<
    Vec<u8>,
    IppError,
>)
    ensures
        match requested_job(request@.attributes) {
            Some(id) if old(state)@.jobs.contains_key(id) => {
                &&& final(state)@ == with_canceled(old(state)@, id)
                &&& answer matches Ok(bytes)
                &&& bytes@ == encode_message(
                    said_of(request@, id, final(state)@.jobs[id], old(state)@.ipp_port),
                )
            },
            _ => {
                &&& final(state)@ == old(state)@
                &&& answer matches Ok(bytes)
                &&& bytes@ == encode_message(not_found_message(request@))
            },
        },
{
    if let Some(id) = job_id_of(request) {
        if let Some(job) = state.take(id) {
            let mut job = job;
            job.state = JOB_CANCELED;
            let bytes = job_response(
                request,
                job.id,
                job.name.as_str(),
                job.user.as_str(),
                job.state,
                state.ipp_port,
            );
            state.put(id, job);
            assert(state@.jobs =~= with_canceled(old(state)@, id).jobs);
            return Ok(bytes);
        }
    }
    Ok(not_found_response(request))
}

/// Get-Jobs: no job is ever reported as waiting, since a job is done as soon as
/// its document has been saved.
pub fn get_jobs_response(_state: &IppState, request: &ParsedIppRequest) -> (bytes: Vec<u8>)
    ensures
        bytes@ == encode_message(success_message(request@)),
{
    success_response(request)
}

/// Reads a request body and does what it asks for, up to the point where a
/// document has to be saved.
pub fn process_ipp_request(state: &mut IppState, body: &[u8]) -> (action: Result<
    IppAction,
    IppError,
>)
    ensures
        consistent(final(state)@),
        final(state)@ == processed(old(state)@, body@).0,
        match action {
            Ok(done) => processed(old(state)@, body@).1 == Ok::<ActionView, IppError>(done@),
            Err(error) => processed(old(state)@, body@).1 == Err::<ActionView, IppError>(error),
        },
{
    proof {
        use_type_invariant(&*state);
    }
    let request = match ParsedIppRequest::parse(body) {
        Ok(request) => request,
        Err(error) => {
            return Err(error);
        },
    };
    let operation = request.operation;
    if operation == OP_GET_PRINTER_ATTRIBUTES {
        Ok(IppAction::Reply(printer_attributes_response(&request, state.ipp_port)))
    } else if operation == OP_VALIDATE_JOB {
        Ok(IppAction::Reply(success_response(&request)))
    } else if operation == OP_PRINT_JOB {
        let pending = print_job(state, &request);
        Ok(IppAction::Save { request, pending })
    } else if operation == OP_CREATE_JOB {
        match create_job(state, &request) {
            Ok(bytes) => Ok(IppAction::Reply(bytes)),
            Err(error) => Err(error),
        }
    } else if operation == OP_SEND_DOCUMENT {
        match send_document(state, &request) {
            Ok(Some(pending)) => Ok(IppAction::Save { request, pending }),
            Ok(None) => Ok(IppAction::Reply(not_found_response(&request))),
            Err(error) => Err(error),
        }
    } else if operation == OP_GET_JOB_ATTRIBUTES {
        match get_job_attributes(state, &request) {
            Ok(bytes) => Ok(IppAction::Reply(bytes)),
            Err(error) => Err(error),
        }
    } else if operation == OP_GET_JOBS {
        Ok(IppAction::Reply(get_jobs_response(state, &request)))
    } else if operation == OP_CANCEL_JOB {
        match cancel_job(state, &request) {
            Ok(bytes) => Ok(IppAction::Reply(bytes)),
            Err(error) => Err(error),
        }
    } else {
        Ok(IppAction::Reply(operation_not_supported_response(&request)))
    }
}

} // verus!
