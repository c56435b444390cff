//! Settings and periodic tasks around the events: the scheduler's pace and
//! the expiry of lent testing servers.
use vstd::prelude::*;

verus! {

/// A testing server lent to a member until `deletion_time` (seconds since
/// the epoch).
#[derive(Clone, Debug)]
pub struct TestingServer {
    pub server_id: String,
    pub deletion_time: i64,
}

/// What the bot keeps for one member.
#[derive(Clone, Debug)]
pub struct UserSettings {
    pub modrinth_id: Option<String>,
    pub testing_servers: Vec<TestingServer>,
    pub max_testing_servers: u32,
}

impl Default for UserSettings {
    /// No linked account, no server, and room for one server.
    fn default() -> (r: UserSettings)
        ensures
            r.modrinth_id is None,
            r.testing_servers@.len() == 0,
            r.max_testing_servers == 1,
    {
        UserSettings { modrinth_id: None, testing_servers: Vec::new(), max_testing_servers: 1 }
    }
}

/// Seconds between two passes of the naming-event scheduler.
pub const SCHEDULER_INTERVAL_SECS: u64 = 60;

/// Seconds between two passes of the testing-server reaper.
pub const DELETION_INTERVAL_SECS: u64 = 60;

/// The periodic pass that fires the naming events' due deadlines.
#[derive(Debug)]
pub struct LoraxSchedulerTask {
    interval_secs: u64,
}

impl LoraxSchedulerTask {
    /// A scheduler that runs once a minute.
    pub fn new() -> (r: LoraxSchedulerTask)
        ensures
            r.interval_secs() == 60,
    {
        LoraxSchedulerTask { interval_secs: SCHEDULER_INTERVAL_SECS }
    }

    pub closed spec fn interval_secs(&self) -> u64 {
        self.interval_secs
    }

    /// Seconds to wait between two passes.
    pub fn interval(&self) -> (r: u64)
        ensures
            r == self.interval_secs(),
    {
        self.interval_secs
    }
}

/// The servers that stay: those whose deletion time is still ahead.
pub open spec fn kept_servers(s: Seq<TestingServer>, now: i64) -> Seq<TestingServer>
    decreases s.len(),
{
    if s.len() == 0 {
        s
    } else {
        let r = kept_servers(s.drop_last(), now);
        if s.last().deletion_time > now { r.push(s.last()) } else { r }
    }
}

/// The ids of the servers whose deletion time has come, in order.
pub open spec fn expired_ids(s: Seq<TestingServer>, now: i64) -> Seq<Seq<char>>
    decreases s.len(),
{
    if s.len() == 0 {
        Seq::empty()
    } else {
        let r = expired_ids(s.drop_last(), now);
        if s.last().deletion_time <= now { r.push(s.last().server_id@) } else { r }
    }
}

/// The periodic pass that deletes testing servers whose time is up.
#[derive(Debug)]
pub struct ServerDeletionTask;

impl ServerDeletionTask {
    pub fn new() -> (r: ServerDeletionTask) {
        ServerDeletionTask
    }

    /// Seconds to wait between two passes.
    pub fn interval(&self) -> (r: u64)
        ensures
            r == 60,
    {
        DELETION_INTERVAL_SECS
    }

    /// Takes out of `servers` every server whose deletion time is at or
    /// before `now`, and returns their ids, in order, for deletion.
    pub fn collect_expired(&self, servers: &mut Vec<TestingServer>, now: i64) -> (r: Vec<String>)
        ensures
            final(servers)@ == kept_servers(old(servers)@, now),
            r@.map_values(|id: String| id@) == expired_ids(old(servers)@, now),
    {
        let mut kept: Vec<TestingServer> = Vec::new();
        let mut gone: Vec<String> = Vec::new();
        let ghost all = servers@;
        let mut taken: Vec<TestingServer> = Vec::new();
        std::mem::swap(servers, &mut taken);
        let n = taken.len();
        let mut i: usize = 0;
        while taken.len() > 0
            invariant
                i + taken@.len() == n,
                n == all.len(),
                taken@ == all.subrange(i as int, n as int),
                kept@ == kept_servers(all.take(i as int), now),
                gone@.map_values(|id: String| id@) == expired_ids(all.take(i as int), now),
            decreases taken@.len(),
        {
            let ghost before_gone = gone@;
            let srv = taken.remove(0);
            assert(srv == all[i as int]);
            assert(all.take(i as int + 1).drop_last() =~= all.take(i as int));
            if srv.deletion_time <= now {
                gone.push(srv.server_id);
                assert(gone@.map_values(|id: String| id@) =~= before_gone.map_values(
                    |id: String| id@,
                ).push(all[i as int].server_id@));
            } else {
                kept.push(srv);
            }
            i += 1;
            assert(taken@ =~= all.subrange(i as int, n as int));
        }
        assert(all.take(n as int) =~= all);
        *servers = kept;
        gone
    }
}

} // verus!
