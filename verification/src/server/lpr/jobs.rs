//! The jobs that a connection brings.

use super::control::{ControlView, LprControlInfo};
use super::session::{file_views, last_control, LprSession, SessionView};
use crate::name_map::NameMap;
use crate::notation::{decimal, push_decimal};
use crate::storage::{no_metadata, JobMetadata, MetadataView};
use crate::text::{encode_utf8_injective, owned, owned_option};
use vstd::prelude::*;
use vstd::utf8::encode_utf8;

verus! {

/// A job that was received.
#[derive(Debug)]
pub struct LprJob {
    pub data: Vec<u8>,
    pub metadata: JobMetadata,
}

/// What an [`LprJob`] holds.
pub struct LprJobView {
    pub data: Seq<u8>,
    pub metadata: MetadataView,
}

impl View for LprJob {
    type V = LprJobView;

    open spec fn view(&self) -> LprJobView {
        LprJobView { data: self.data@, metadata: self.metadata@ }
    }
}

/// What the jobs hold.
pub open spec fn job_list_view(jobs: Seq<LprJob>) -> Seq<LprJobView> {
    jobs.map_values(|job: LprJob| job@)
}

/// What is kept of a control file beside the data.
pub open spec fn control_attributes(control: ControlView) -> Map<Seq<char>, Seq<char>> {
    let first = if control.raw.len() > 0 {
        Map::empty().insert("lpr-control-file"@, control.raw)
    } else {
        Map::empty()
    };
    match control.host {
        Some(host) => first.insert("originating-host"@, host),
        None => first,
    }
}

/// The name of the job at `index`: the one that the control file gives it, else
/// the name of the file that was printed, else one made of its place.
pub open spec fn lpr_job_name(control: ControlView, index: nat) -> Seq<char> {
    match control.job_name {
        Some(name) => name,
        None => match control.source_name {
            Some(name) => name,
            None => "lpr-job-"@ + decimal((index + 1) as nat),
        },
    }
}

/// The job that a data file makes.
pub open spec fn lpr_job(session: SessionView, index: nat, peer: Seq<char>) -> LprJobView {
    let control = last_control(session);
    let file = session.files[index as int];
    LprJobView {
        data: file.data,
        metadata: MetadataView {
            protocol: "LPR"@,
            source: Some(peer),
            queue: Some(session.queue),
            user: control.user,
            job_name: Some(lpr_job_name(control, index)),
            protocol_file_name: Some(file.protocol_name),
            attributes: control_attributes(control),
            ..no_metadata()
        },
    }
}

/// The jobs that the data files of a connection make.
pub open spec fn lpr_jobs(session: SessionView, peer: Seq<char>) -> Seq<LprJobView> {
    Seq::new(session.files.len(), |i: int| lpr_job(session, i as nat, peer))
}

/// What is kept of a control file beside the data.
fn attributes_of(control: &LprControlInfo) -> (attributes: NameMap<String>)
    ensures
        attributes@ == control_attributes(control@),
{
    let mut attributes: NameMap<String> = NameMap::new();
    if control.raw.as_str().as_bytes().len() > 0 {
        proof {
            assert(control.raw@.len() > 0) by {
                if control.raw@.len() == 0 {
                    assert(encode_utf8(control.raw@).len() == 0);
                }
            }
        }
        attributes.insert(owned("lpr-control-file"), control.raw.clone());
    } else {
        proof {
            if control.raw@.len() > 0 {
                assert(encode_utf8(control.raw@) =~= encode_utf8(Seq::<char>::empty()));
                encode_utf8_injective(control.raw@, Seq::<char>::empty());
            }
        }
    }
    if let Some(host) = &control.host {
        attributes.insert(owned("originating-host"), host.clone());
    }
    attributes
}

/// The name of the job at `index`.
fn job_name_of(control: &LprControlInfo, index: usize) -> (name: String)
    requires
        index < usize::MAX,
    ensures
        name@ == lpr_job_name(control@, index as nat),
{
    match &control.job_name {
        Some(name) => name.clone(),
        None => match &control.source_name {
            Some(name) => name.clone(),
            None => {
                let mut name = owned("lpr-job-");
                push_decimal(&mut name, (index + 1) as u64);
                name
            },
        },
    }
}

impl LprSession {
    /// The jobs that were received, for which `peer` is the other side of the
    /// connection.
    pub fn into_jobs(self, peer: &str) -> (jobs: Vec<LprJob>)
        ensures
            job_list_view(jobs@) == lpr_jobs(self@, peer@),
    {
        let ghost session = self@;
        let (queue, control, files) = self.into_parts();
        let count = files.len();
        let mut jobs: Vec<LprJob> = Vec::new();
        let mut index: usize = 0;
        for file in it: files
            invariant
                index == it.index(),
                it.seq() == files@,
                count == files@.len(),
                session.files == file_views(files@),
                session.queue == queue@,
                control@ == last_control(session),
                jobs@.len() == index,
                forall|k: int| 0 <= k < index ==> (#[trigger] jobs@[k])@ == lpr_job(
                    session,
                    k as nat,
                    peer@,
                ),
        {
            let mut metadata = JobMetadata::default();
            metadata.protocol = owned("LPR");
            metadata.source = Some(owned(peer));
            metadata.queue = Some(queue.clone());
            metadata.user = owned_option(&control.user);
            metadata.job_name = Some(job_name_of(&control, index));
            metadata.protocol_file_name = Some(file.protocol_name);
            metadata.attributes = attributes_of(&control);
            let job = LprJob { data: file.data, metadata };
            assert(session.files[index as int] == file@);
            assert(job@ == lpr_job(session, index as nat, peer@));
            jobs.push(job);
            index = index + 1;
        }
        assert(job_list_view(jobs@) =~= lpr_jobs(session, peer@));
        jobs
    }
}

} // verus!
