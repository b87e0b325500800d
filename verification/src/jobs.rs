//! Jobs as the engine hands them to job control.

use vstd::prelude::*;

verus! {

/// One child process of a job.
#[derive(Debug)]
pub struct ChildProc {
    pub pid: i32,
    /// The name under which the process is shown.
    pub command: Option<String>,
    /// The process group that the process belongs to.
    pub pgid: Option<i32>,
}

pub struct ChildProcView {
    pub pid: i32,
    pub command: Option<Seq<char>>,
    pub pgid: Option<i32>,
}

impl View for ChildProc {
    type V = ChildProcView;

    open spec fn view(&self) -> ChildProcView {
        ChildProcView {
            pid: self.pid,
            command: match self.command {
                Some(c) => Some(c@),
                None => None,
            },
            pgid: self.pgid,
        }
    }
}

impl ChildProc {
    pub fn new(pid: i32, command: Option<&str>, pgid: Option<i32>) -> (r: ChildProc)
        ensures
            r@ == (ChildProcView {
                pid,
                command: match command {
                    Some(c) => Some(c@),
                    None => None,
                },
                pgid,
            }),
    {
        let command = match command {
            Some(c) => Some(c.to_owned()),
            None => None,
        };
        ChildProc { pid, command, pgid }
    }
}

/// The processes started together for one construct in the foreground, and
/// the process group that they share.
#[derive(Debug)]
pub struct Job {
    pub children: Vec<ChildProc>,
    pub pgid: i32,
}

pub struct JobView {
    pub children: Seq<ChildProcView>,
    pub pgid: i32,
}

impl View for Job {
    type V = JobView;

    open spec fn view(&self) -> JobView {
        JobView {
            children: Seq::new(self.children@.len(), |i: int| self.children@[i]@),
            pgid: self.pgid,
        }
    }
}

/// The job of the one process `pid`, shown as `command`, in the group
/// `pgid`.
pub open spec fn single_job(pid: i32, command: Seq<char>, pgid: i32) -> JobView {
    JobView {
        children: seq![ChildProcView { pid, command: Some(command), pgid: Some(pgid) }],
        pgid,
    }
}

impl Job {
    /// The job of one process.
    pub fn single(pid: i32, command: &str, pgid: i32) -> (r: Job)
        ensures
            r@ == single_job(pid, command@, pgid),
    {
        let mut children: Vec<ChildProc> = Vec::new();
        children.push(ChildProc::new(pid, Some(command), Some(pgid)));
        let r = Job { children, pgid };
        assert(r@.children =~= single_job(pid, command@, pgid).children);
        r
    }
}

} // verus!
