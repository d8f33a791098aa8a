//! The process registry and supervisor: identifier allocation, the live
//! record per spawned process, and the non-blocking status, output-capture,
//! kill and cleanup protocol.
//!
//! Spawning, waiting and killing the operating-system process are the
//! caller's: the caller reports what the system said (did the spawn
//! succeed, has the process exited, what did a read return) and the
//! registry decides everything else. Once an identifier is removed it is
//! never reused: the counter only grows.

use vstd::prelude::*;
use crate::text::{dec_rep, u64_to_string, lemma_dec_rep_injective};

verus! {

/// The identifier issued for the `n`-th launch.
pub open spec fn id_string(n: u64) -> Seq<char> {
    "game_process_"@ + dec_rep(n as nat)
}

/// Distinct counter values give distinct identifiers.
pub proof fn lemma_id_string_injective(a: u64, b: u64)
    requires
        a != b,
    ensures
        id_string(a) != id_string(b),
{
    lemma_dec_rep_injective(a as nat, b as nat);
    if id_string(a) == id_string(b) {
        let p = "game_process_"@;
        assert(dec_rep(a as nat) =~= id_string(a).subrange(
            p.len() as int,
            id_string(a).len() as int,
        ));
        assert(dec_rep(b as nat) =~= id_string(b).subrange(
            p.len() as int,
            id_string(b).len() as int,
        ));
    }
}

/// The live state of one spawned process: its numeric id, the identifier
/// handed to the caller, the wall-clock start time, and the two captured
/// output buffers its readers append to.
#[derive(Debug)]
pub struct ProcessRecord {
    pub id: u64,
    pub identifier: String,
    pub start_time_millis: u64,
    pub stdout: Vec<u8>,
    pub stderr: Vec<u8>,
}

/// The registry: a monotone identifier counter and the live records.
pub struct ProcessRegistry {
    pub next_id: u64,
    pub records: Vec<ProcessRecord>,
}

/// What the caller learned from probing the operating system about one
/// process: it has exited with the given code (none when killed by a
/// signal), or it is still running.
pub enum ExitProbe {
    Exited(Option<i32>),
    Running,
}

/// How one spawn attempt went: the process is up, or the system refused
/// with an error text.
pub enum SpawnOutcome {
    Spawned,
    Failed(String),
}

/// What a launch attempt returns to the caller.
#[derive(Debug)]
pub struct LaunchResult {
    pub success: bool,
    pub process_id: Option<String>,
    pub error: Option<String>,
}

/// What a status poll returns to the caller.
#[derive(Debug)]
pub struct ProcessStatus {
    pub running: bool,
    pub exit_code: Option<i32>,
    pub stdout: Option<String>,
    pub stderr: Option<String>,
}

/// What decoding the captured bytes yields: any byte sequence decodes, with
/// invalid sequences replaced, so a child's output never fails a poll.
pub uninterp spec fn lossy_decode(bytes: Seq<u8>) -> Seq<char>;

/// Relies on `String::from_utf8_lossy`: the decoding depends on the bytes
/// alone, and valid UTF-8 decodes exactly.
#[verifier::external_body]
fn from_utf8_lossy(bytes: &Vec<u8>) -> (r: String)
    ensures
        r@ == lossy_decode(bytes@),
        vstd::utf8::valid_utf8(bytes@) ==> r@ == vstd::utf8::decode_utf8(bytes@),
{
    String::from_utf8_lossy(bytes.as_slice()).into_owned()
}

/// Appends every byte of `src` to `dst`.
fn extend_bytes(dst: Vec<u8>, src: &Vec<u8>) -> (r: Vec<u8>)
    ensures
        r@ == dst@ + src@,
{
    let ghost dst0 = dst@;
    let mut r = dst;
    let mut i: usize = 0;
    proof {
        assert(r@ =~= dst0 + src@.take(0));
    }
    while i < src.len()
        invariant
            0 <= i <= src@.len(),
            r@ == dst0 + src@.take(i as int),
        decreases src@.len() - i,
    {
        r.push(src[i]);
        proof {
            assert(r@ =~= dst0 + src@.take(i + 1));
        }
        i += 1;
    }
    proof {
        assert(src@.take(src@.len() as int) =~= src@);
    }
    r
}

/// The records kept by a cleanup pass: those whose identifier is not among
/// the exited ones, in order.
pub open spec fn kept_records(records: Seq<ProcessRecord>, exited: Seq<Seq<char>>) -> Seq<
    ProcessRecord,
>
    decreases records.len(),
{
    if records.len() == 0 {
        Seq::<ProcessRecord>::empty()
    } else {
        let rest = kept_records(records.drop_last(), exited);
        if exited.contains(records.last().identifier@) {
            rest
        } else {
            rest.push(records.last())
        }
    }
}

/// The identifiers a cleanup pass removes, in record order.
pub open spec fn removed_identifiers(records: Seq<ProcessRecord>, exited: Seq<Seq<char>>) -> Seq<
    Seq<char>,
>
    decreases records.len(),
{
    if records.len() == 0 {
        Seq::<Seq<char>>::empty()
    } else {
        let rest = removed_identifiers(records.drop_last(), exited);
        if exited.contains(records.last().identifier@) {
            rest.push(records.last().identifier@)
        } else {
            rest
        }
    }
}

/// Every record a cleanup keeps was already there.
proof fn lemma_kept_membership(records: Seq<ProcessRecord>, exited: Seq<Seq<char>>, k: int)
    requires
        0 <= k < kept_records(records, exited).len(),
    ensures
        records.contains(kept_records(records, exited)[k]),
    decreases records.len(),
{
    if records.len() > 0 {
        let kept = kept_records(records, exited);
        let rest = kept_records(records.drop_last(), exited);
        if !exited.contains(records.last().identifier@) && k == kept.len() - 1 {
            assert(records[records.len() - 1] == records.last());
        } else {
            lemma_kept_membership(records.drop_last(), exited, k);
            let x = rest[k];
            let j = choose|j: int|
                0 <= j < records.drop_last().len() && records.drop_last()[j] == x;
            assert(records[j] == x);
        }
    }
}

impl ProcessRegistry {
    /// The identifiers of the live records, in insertion order.
    pub open spec fn identifiers(self) -> Seq<Seq<char>> {
        Seq::new(self.records@.len(), |i: int| self.records@[i].identifier@)
    }

    /// Some live record answers to this identifier.
    pub open spec fn contains_identifier(self, id: Seq<char>) -> bool {
        exists|k: int| 0 <= k < self.records@.len() && self.records@[k].identifier@ == id
    }

    /// The registry invariant: the counter dominates every issued id, ids
    /// are pairwise distinct, and each record's identifier is the rendering
    /// of its id.
    pub open spec fn wf(self) -> bool {
        &&& self.next_id >= 1
        &&& forall|i: int|
            0 <= i < self.records@.len() ==> (#[trigger] self.records@[i]).id < self.next_id
        &&& forall|i: int, j: int|
            0 <= i < j < self.records@.len() ==> (#[trigger] self.records@[i]).id != (
            #[trigger] self.records@[j]).id
        &&& forall|i: int|
            0 <= i < self.records@.len() ==> (#[trigger] self.records@[i]).identifier@
                == id_string(self.records@[i].id)
    }

    /// In a well-formed registry no two live records share an identifier:
    /// an identifier handed out refers to at most one process.
    pub proof fn lemma_identifiers_distinct(self, i: int, j: int)
        requires
            self.wf(),
            0 <= i < j < self.records@.len(),
        ensures
            self.identifiers()[i] != self.identifiers()[j],
    {
        lemma_id_string_injective(self.records@[i].id, self.records@[j].id);
    }

    /// An empty registry whose counter starts at one.
    pub fn new() -> (r: ProcessRegistry)
        ensures
            r.wf(),
            r.records@.len() == 0,
            r.next_id == 1,
    {
        ProcessRegistry { next_id: 1, records: Vec::new() }
    }

    /// Issues the next identifier and bumps the counter. The identifier
    /// differs from every identifier the registry still holds, and — the
    /// counter never repeating — from every identifier ever issued.
    pub fn generate_process_id(&mut self) -> (id: String)
        requires
            old(self).next_id < u64::MAX,
        ensures
            id@ == id_string(old(self).next_id),
            final(self).next_id == old(self).next_id + 1,
            final(self).records == old(self).records,
            old(self).wf() ==> final(self).wf(),
            old(self).wf() ==> !old(self).contains_identifier(id@),
    {
        let mut id = String::from_str("game_process_");
        id.append(u64_to_string(self.next_id).as_str());
        self.next_id = self.next_id + 1;
        proof {
            assert(id@ =~= id_string(old(self).next_id));
            if old(self).wf() && old(self).contains_identifier(id@) {
                let k = choose|k: int|
                    0 <= k < old(self).records@.len() && old(self).records@[k].identifier@
                        == id@;
                lemma_id_string_injective(old(self).records@[k].id, old(self).next_id);
            }
        }
        id
    }

    /// Registers the result of one launch attempt. On a successful spawn a
    /// fresh identifier is issued, a record with empty capture buffers is
    /// inserted, and a success result carries the identifier back; on a
    /// failed spawn nothing is registered and the error is reported in the
    /// result, never as a crash.
    pub fn launch_game_client(&mut self, outcome: SpawnOutcome, start_time_millis: u64) -> (r:
        LaunchResult)
        requires
            old(self).wf(),
            old(self).next_id < u64::MAX,
        ensures
            final(self).wf(),
            match outcome {
                SpawnOutcome::Failed(e) => {
                    &&& *final(self) == *old(self)
                    &&& r.success == false
                    &&& r.process_id is None
                    &&& r.error is Some
                    &&& r.error.unwrap()@ == "Failed to launch game: "@ + e@
                },
                SpawnOutcome::Spawned => {
                    &&& r.success == true
                    &&& r.error is None
                    &&& r.process_id is Some
                    &&& r.process_id.unwrap()@ == id_string(old(self).next_id)
                    &&& !old(self).contains_identifier(id_string(old(self).next_id))
                    &&& final(self).next_id == old(self).next_id + 1
                    &&& final(self).records@.len() == old(self).records@.len() + 1
                    &&& final(self).records@.drop_last() == old(self).records@
                    &&& final(self).records@.last().id == old(self).next_id
                    &&& final(self).records@.last().identifier@ == id_string(old(self).next_id)
                    &&& final(self).records@.last().start_time_millis == start_time_millis
                    &&& final(self).records@.last().stdout@ == Seq::<u8>::empty()
                    &&& final(self).records@.last().stderr@ == Seq::<u8>::empty()
                },
            },
    {
        match outcome {
            SpawnOutcome::Failed(e) => {
                let mut msg = String::from_str("Failed to launch game: ");
                msg.append(e.as_str());
                LaunchResult { success: false, process_id: None, error: Some(msg) }
            },
            SpawnOutcome::Spawned => {
                let identifier = self.generate_process_id();
                let record = ProcessRecord {
                    id: self.next_id - 1,
                    identifier: identifier.clone(),
                    start_time_millis,
                    stdout: Vec::new(),
                    stderr: Vec::new(),
                };
                self.records.push(record);
                proof {
                    assert(self.records@.drop_last() =~= old(self).records@);
                }
                LaunchResult { success: true, process_id: Some(identifier), error: None }
            },
        }
    }

    /// Answers a status poll. An unknown identifier reports "not found",
    /// never a crash. A running process reports only that it runs; an
    /// exited one reports its code and both captured buffers to date,
    /// decoded leniently since a child's output encoding is not guaranteed.
    pub fn check_game_process(&self, process_id: &String, probe: ExitProbe) -> (r: Result<
        ProcessStatus,
        String,
    >)
        ensures
            r is Ok <==> self.contains_identifier(process_id@),
            r is Err ==> r.unwrap_err()@ == "Process not found"@,
            r is Ok ==> match probe {
                ExitProbe::Running => {
                    &&& r.unwrap().running == true
                    &&& r.unwrap().exit_code is None
                    &&& r.unwrap().stdout is None
                    &&& r.unwrap().stderr is None
                },
                ExitProbe::Exited(code) => {
                    &&& r.unwrap().running == false
                    &&& r.unwrap().exit_code == code
                    &&& r.unwrap().stdout is Some
                    &&& r.unwrap().stderr is Some
                    &&& exists|k: int|
                        {
                            &&& 0 <= k < self.records@.len()
                            &&& (#[trigger] self.records@[k]).identifier@ == process_id@
                            &&& r.unwrap().stdout.unwrap()@ == lossy_decode(
                                self.records@[k].stdout@,
                            )
                            &&& r.unwrap().stderr.unwrap()@ == lossy_decode(
                                self.records@[k].stderr@,
                            )
                        }
                },
            },
    {
        let n = self.records.len();
        let mut k: usize = 0;
        while k < n
            invariant
                n == self.records@.len(),
                0 <= k <= n,
                forall|j: int|
                    0 <= j < k ==> (#[trigger] self.records@[j]).identifier@ != process_id@,
            decreases n - k,
        {
            if self.records[k].identifier.eq(process_id) {
                match probe {
                    ExitProbe::Running => {
                        return Ok(
                            ProcessStatus {
                                running: true,
                                exit_code: None,
                                stdout: None,
                                stderr: None,
                            },
                        );
                    },
                    ExitProbe::Exited(code) => {
                        let out = from_utf8_lossy(&self.records[k].stdout);
                        let err = from_utf8_lossy(&self.records[k].stderr);
                        return Ok(
                            ProcessStatus {
                                running: false,
                                exit_code: code,
                                stdout: Some(out),
                                stderr: Some(err),
                            },
                        );
                    },
                }
            }
            k += 1;
        }
        Err(String::from_str("Process not found"))
    }

    /// Appends a chunk a background reader captured to the record's
    /// standard-error or standard-output buffer. Reports whether the
    /// identifier was still registered; a reader racing a kill simply
    /// finds nothing to append to.
    pub fn append_output(&mut self, process_id: &String, stderr_stream: bool, chunk: &Vec<u8>) -> (
        found: bool)
        requires
            old(self).wf(),
        ensures
            final(self).wf(),
            found == old(self).contains_identifier(process_id@),
            !found ==> *final(self) == *old(self),
            found ==> final(self).next_id == old(self).next_id,
            found ==> exists|k: int|
                {
                    &&& 0 <= k < old(self).records@.len()
                    &&& (#[trigger] old(self).records@[k]).identifier@ == process_id@
                    &&& final(self).records@.len() == old(self).records@.len()
                    &&& (forall|j: int|
                        0 <= j < old(self).records@.len() && j != k
                            ==> #[trigger] final(self).records@[j] == old(self).records@[j])
                    &&& final(self).records@[k].id == old(self).records@[k].id
                    &&& final(self).records@[k].identifier == old(self).records@[k].identifier
                    &&& final(self).records@[k].start_time_millis == old(
                        self,
                    ).records@[k].start_time_millis
                    &&& (stderr_stream ==> final(self).records@[k].stderr@ == old(
                        self,
                    ).records@[k].stderr@ + chunk@ && final(self).records@[k].stdout@ == old(
                        self,
                    ).records@[k].stdout@)
                    &&& (!stderr_stream ==> final(self).records@[k].stdout@ == old(
                        self,
                    ).records@[k].stdout@ + chunk@ && final(self).records@[k].stderr@ == old(
                        self,
                    ).records@[k].stderr@)
                },
    {
        let n = self.records.len();
        let mut k: usize = 0;
        while k < n
            invariant
                old(self).wf(),
                *self == *old(self),
                n == self.records@.len(),
                0 <= k <= n,
                forall|j: int|
                    0 <= j < k ==> (#[trigger] self.records@[j]).identifier@ != process_id@,
            decreases n - k,
        {
            if self.records[k].identifier.eq(process_id) {
                assert(old(self).records@[k as int].identifier@ == process_id@);
                let mut rec = self.records.remove(k);
                if stderr_stream {
                    rec.stderr = extend_bytes(rec.stderr, chunk);
                } else {
                    rec.stdout = extend_bytes(rec.stdout, chunk);
                }
                self.records.insert(k, rec);
                proof {
                    let pre = old(self).records@;
                    let post = self.records@;
                    assert(post =~= pre.update(k as int, post[k as int]));
                    assert(forall|j: int|
                        0 <= j < pre.len() && j != k ==> #[trigger] post[j] == pre[j]);
                    assert(post[k as int].id == pre[k as int].id);
                    assert(post[k as int].identifier == pre[k as int].identifier);
                    assert(old(self).contains_identifier(process_id@));
                    assert forall|a: int| 0 <= a < post.len() implies (#[trigger] post[a]).id
                        < self.next_id && post[a].identifier@ == id_string(post[a].id) by {
                        assert(pre[a].id < old(self).next_id);
                        assert(pre[a].identifier@ == id_string(pre[a].id));
                    };
                    assert forall|a: int, b: int| 0 <= a < b < post.len() implies (
                    #[trigger] post[a]).id != (#[trigger] post[b]).id by {
                        assert(pre[a].id != pre[b].id);
                    };
                }
                return true;
            }
            k += 1;
        }
        false
    }

    /// Removes the record for the identifier and returns it so the caller
    /// can terminate the operating-system process; an unknown identifier
    /// reports "not found". A removed identifier is permanently gone: a
    /// second kill, or any later poll, reports "not found".
    pub fn kill_game_process(&mut self, process_id: &String) -> (r: Result<ProcessRecord, String>)
        requires
            old(self).wf(),
        ensures
            final(self).wf(),
            kill_transition(*old(self), process_id@, r is Ok, *final(self)),
            r is Ok ==> r.unwrap().identifier@ == process_id@,
            r is Err ==> r.unwrap_err()@ == "Process not found"@,
    {
        let n = self.records.len();
        let mut k: usize = 0;
        while k < n
            invariant
                old(self).wf(),
                *self == *old(self),
                n == self.records@.len(),
                0 <= k <= n,
                forall|j: int|
                    0 <= j < k ==> (#[trigger] self.records@[j]).identifier@ != process_id@,
            decreases n - k,
        {
            if self.records[k].identifier.eq(process_id) {
                proof {
                    assert(old(self).records@[k as int].identifier@ == process_id@);
                    assert(old(self).contains_identifier(process_id@));
                }
                let rec = self.records.remove(k);
                proof {
                    let pre = old(self).records@;
                    let post = self.records@;
                    assert(post =~= pre.subrange(0, k as int) + pre.subrange(
                        k + 1,
                        pre.len() as int,
                    ));
                    assert(forall|j: int| 0 <= j < k ==> #[trigger] post[j] == pre[j]);
                    assert(forall|j: int|
                        k <= j < post.len() ==> #[trigger] post[j] == pre[j + 1]);
                    assert forall|a: int| 0 <= a < post.len() implies (#[trigger] post[a]).id
                        < self.next_id && post[a].identifier@ == id_string(post[a].id) by {
                        let aa = if a < k { a } else { a + 1 };
                        assert(post[a] == pre[aa]);
                        assert(pre[aa].id < old(self).next_id);
                        assert(pre[aa].identifier@ == id_string(pre[aa].id));
                    };
                    assert forall|a: int, b: int| 0 <= a < b < post.len() implies (
                    #[trigger] post[a]).id != (#[trigger] post[b]).id by {
                        let aa = if a < k { a } else { a + 1 };
                        let bb = if b < k { b } else { b + 1 };
                        assert(post[a] == pre[aa]);
                        assert(post[b] == pre[bb]);
                        assert(pre[aa].id != pre[bb].id);
                    };
                    assert forall|id2: u64| self.contains_id(id2) implies old(
                        self,
                    ).contains_id(id2) by {
                        let j = choose|j: int|
                            0 <= j < post.len() && post[j].id == id2;
                        if j < k {
                            assert(pre[j].id == id2);
                        } else {
                            assert(post[j] == pre[j + 1]);
                            assert(pre[j + 1].id == id2);
                        }
                    };
                    assert(!self.contains_identifier(process_id@)) by {
                        if self.contains_identifier(process_id@) {
                            let j = choose|j: int|
                                0 <= j < post.len() && post[j].identifier@ == process_id@;
                            let jj = if j < k { j } else { j + 1 };
                            assert(post[j] == pre[jj]);
                            assert(pre[jj].identifier@ == process_id@);
                            assert(jj != k);
                            assert(pre[jj].identifier@ == id_string(pre[jj].id));
                            assert(pre[k as int].identifier@ == id_string(pre[k as int].id));
                            assert(pre[jj].id != pre[k as int].id);
                            lemma_id_string_injective(pre[jj].id, pre[k as int].id);
                        }
                    };
                }
                return Ok(rec);
            }
            k += 1;
        }
        Err(String::from_str("Process not found"))
    }

    /// Is some live record's numeric id this one?
    pub open spec fn contains_id(self, id: u64) -> bool {
        exists|k: int| 0 <= k < self.records@.len() && (#[trigger] self.records@[k]).id == id
    }

    /// Removes every record whose identifier the caller found exited,
    /// reclaiming registry memory; the records kept are exactly the others,
    /// in order, and the removed identifiers are returned.
    pub fn cleanup_dead_processes(&mut self, exited: &Vec<String>) -> (removed: Vec<String>)
        requires
            old(self).wf(),
        ensures
            final(self).wf(),
            final(self).next_id == old(self).next_id,
            final(self).records@ == kept_records(old(self).records@, exited.deep_view()),
            removed.deep_view() == removed_identifiers(old(self).records@, exited.deep_view()),
    {
        let ghost pre = self.records@;
        let ghost ex = exited.deep_view();
        let mut kept: Vec<ProcessRecord> = Vec::new();
        let mut removed: Vec<String> = Vec::new();
        proof {
            assert(kept@ =~= kept_records(pre.take(0), ex));
            assert(removed.deep_view() =~= removed_identifiers(pre.take(0), ex));
            assert(self.records@ =~= pre.skip(0));
        }
        let mut i: usize = 0;
        let n = self.records.len();
        while i < n
            invariant
                n == pre.len(),
                0 <= i <= n,
                self.next_id == old(self).next_id,
                pre == old(self).records@,
                ex == exited.deep_view(),
                self.records@ == pre.skip(i as int),
                kept@ == kept_records(pre.take(i as int), ex),
                removed.deep_view() == removed_identifiers(pre.take(i as int), ex),
            decreases n - i,
        {
            let ghost kept0 = kept@;
            let ghost removed0 = removed.deep_view();
            proof {
                assert(pre.take(i + 1).drop_last() =~= pre.take(i as int));
                assert(pre.take(i + 1).last() == pre[i as int]);
                assert(pre.skip(i as int)[0] == pre[i as int]);
            }
            let rec = self.records.remove(0);
            proof {
                assert(self.records@ =~= pre.skip(i + 1));
            }
            let mut was_exited = false;
            let mut j: usize = 0;
            let m = exited.len();
            while j < m
                invariant
                    ex == exited.deep_view(),
                    m == ex.len(),
                    m == exited@.len(),
                    0 <= j <= m,
                    0 <= i < pre.len(),
                    rec == pre[i as int],
                    was_exited == exists|t: int| 0 <= t < j && ex[t] == rec.identifier@,
                decreases m - j,
            {
                if exited[j].eq(&rec.identifier) {
                    was_exited = true;
                    assert(ex[j as int] == rec.identifier@);
                }
                j += 1;
            }
            proof {
                assert(was_exited == ex.contains(rec.identifier@));
            }
            if was_exited {
                removed.push(rec.identifier);
                proof {
                    assert(removed.deep_view() =~= removed0.push(pre[i as int].identifier@));
                }
            } else {
                kept.push(rec);
                proof {
                    assert(kept@ =~= kept0.push(pre[i as int]));
                }
            }
            i += 1;
        }
        proof {
            assert(pre.take(n as int) =~= pre);
        }
        self.records = kept;
        proof {
            let post = self.records@;
            assert forall|a: int, b: int| 0 <= a < b < post.len() implies post[a].id != post[b].id
                by {
                lemma_kept_membership(pre, ex, a);
                lemma_kept_membership(pre, ex, b);
                if post[a].id == post[b].id {
                    let ja = choose|j: int| 0 <= j < pre.len() && pre[j] == post[a];
                    let jb = choose|j: int| 0 <= j < pre.len() && pre[j] == post[b];
                    lemma_kept_distinct(pre, ex, a, b);
                }
            };
            assert forall|a: int| 0 <= a < post.len() implies post[a].id < self.next_id
                && post[a].identifier@ == id_string(post[a].id) by {
                lemma_kept_membership(pre, ex, a);
                let j = choose|j: int| 0 <= j < pre.len() && pre[j] == post[a];
            };
        }
        removed
    }
}

/// How one kill call changes the registry: the identifier was found
/// exactly when the call succeeds, success removes it for good, and a miss
/// changes nothing.
pub open spec fn kill_transition(
    pre: ProcessRegistry,
    id: Seq<char>,
    found: bool,
    post: ProcessRegistry,
) -> bool {
    &&& found == pre.contains_identifier(id)
    &&& (found ==> !post.contains_identifier(id) && post.next_id == pre.next_id && (forall|
        id2: u64,
    |
        #[trigger] post.contains_id(id2) ==> pre.contains_id(id2)))
    &&& (!found ==> post == pre)
}

/// Killing an identifier twice: when the first call succeeds, the second
/// reports "not found" and leaves the registry untouched.
pub proof fn lemma_kill_twice(
    r0: ProcessRegistry,
    r1: ProcessRegistry,
    r2: ProcessRegistry,
    id: Seq<char>,
    found1: bool,
    found2: bool,
)
    requires
        kill_transition(r0, id, found1, r1),
        kill_transition(r1, id, found2, r2),
        found1,
    ensures
        !found2,
        r2 == r1,
{
}

/// Two kept records at distinct positions come from distinct positions of
/// the list the cleanup walked.
proof fn lemma_kept_distinct(
    records: Seq<ProcessRecord>,
    exited: Seq<Seq<char>>,
    a: int,
    b: int,
)
    requires
        0 <= a < b < kept_records(records, exited).len(),
        forall|i: int, j: int|
            0 <= i < j < records.len() ==> (#[trigger] records[i]).id != (
            #[trigger] records[j]).id,
    ensures
        kept_records(records, exited)[a].id != kept_records(records, exited)[b].id,
    decreases records.len(),
{
    let kept = kept_records(records, exited);
    let rest = kept_records(records.drop_last(), exited);
    assert(records.len() > 0);
    assert(forall|i: int, j: int|
        0 <= i < j < records.drop_last().len() ==> (#[trigger] records.drop_last()[i]).id != (
        #[trigger] records.drop_last()[j]).id) by {
        assert(forall|i: int|
            0 <= i < records.drop_last().len() ==> #[trigger] records.drop_last()[i]
                == records[i]);
    }
    if !exited.contains(records.last().identifier@) && b == kept.len() - 1 {
        lemma_kept_membership(records.drop_last(), exited, a);
        let j = choose|j: int|
            0 <= j < records.drop_last().len() && records.drop_last()[j] == rest[a];
        assert(records[j] == rest[a]);
        assert(records[records.len() - 1] == records.last());
        assert(records[j].id != records[records.len() - 1].id);
    } else {
        lemma_kept_distinct(records.drop_last(), exited, a, b);
    }
}

} // verus!
