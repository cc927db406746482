use vstd::prelude::*;

verus! {

/// The io_uring operation codes, in the kernel's order.
#[allow(non_camel_case_types)]
pub enum IOOPS {
    IORING_OP_NOP,
    IORING_OP_READV,
    IORING_OP_WRITEV,
    IORING_OP_FSYNC,
    IORING_OP_READ_FIXED,
    IORING_OP_WRITE_FIXED,
    IORING_OP_POLL_ADD,
    IORING_OP_POLL_REMOVE,
    IORING_OP_SYNC_FILE_RANGE,
    IORING_OP_SENDMSG,
    IORING_OP_RECVMSG,
    IORING_OP_TIMEOUT,
    IORING_OP_TIMEOUT_REMOVE,
    IORING_OP_ACCEPT,
    IORING_OP_ASYNC_CANCEL,
    IORING_OP_LINK_TIMEOUT,
    IORING_OP_CONNECT,
    IORING_OP_FALLOCATE,
    IORING_OP_OPENAT,
    IORING_OP_CLOSE,
    IORING_OP_FILES_UPDATE,
    IORING_OP_STATX,
    IORING_OP_READ,
    IORING_OP_WRITE,
    IORING_OP_FADVISE,
    IORING_OP_MADVISE,
    IORING_OP_SEND,
    IORING_OP_RECV,
    IORING_OP_OPENAT2,
    IORING_OP_EPOLL_CTL,
    IORING_OP_SPLICE,
    IORING_OP_PROVIDE_BUFFERS,
    IORING_OP_REMOVE_BUFFERS,
    IORING_OP_TEE,
    IORING_OP_SHUTDOWN,
    IORING_OP_RENAMEAT,
    IORING_OP_UNLINKAT,
    IORING_OP_LAST,
}


/// The ways the ring can fail or finish.
#[derive(PartialEq, Eq, Structural, Debug, Clone, Copy)]
pub enum UringError {
    /// The setup system call returned this negative value.
    SysIoUringSetup(i32),
    /// Mapping the submission/completion ring returned this negative value.
    SysMmapSqPtr(i32),
    /// Mapping the submission entries returned this negative value.
    SysMmapSqes(i32),
    /// The kernel does not post completions for every submission.
    NotSupported,
    /// The completion queue holds no entry.
    ReadFromCqEmptyBuffer,
    /// The enter system call returned this value, which is not what was asked.
    SubmitToSqResult(i32),
    /// Every submitted operation has been read back.
    JobComplete,
}

/// The queue depth used when none is asked for.
pub const QUEUE_DEPTH: usize = 500;

/// The counters of a ring, as the contracts see them.
#[derive(Clone, Copy)]
pub struct UringCounts {
    /// How many entries the ring was made with.
    pub entries: usize,
    /// Completions read since the last reset.
    pub read_total: u64,
    /// Submissions queued since the last successful submit.
    pub submit: u32,
    /// Submissions accepted by the kernel since the last reset.
    pub submit_total: u64,
}

/// Bookkeeping of an io_uring instance: how big it is, how much has been
/// queued, handed to the kernel and read back. The shared memory of the ring
/// is read and written by the caller, who hands the ring's head, tail and
/// mask to these methods.
pub struct Uring {
    pub entries: usize,
    read_total: u64,
    submit: u32,
    submit_total: u64,
}

impl View for Uring {
    type V = UringCounts;

    closed spec fn view(&self) -> UringCounts {
        UringCounts {
            entries: self.entries,
            read_total: self.read_total,
            submit: self.submit,
            submit_total: self.submit_total,
        }
    }
}

/// The entries that a ring asked for with `queue_depth` gets.
pub open spec fn spec_depth(queue_depth: usize) -> usize {
    if queue_depth == 0 { QUEUE_DEPTH } else { queue_depth }
}

/// The ring index after `i`: the head and tail of a ring are free-running
/// 32-bit counters, which wrap.
pub open spec fn next_index(i: u32) -> u32 {
    if i == u32::MAX { 0 } else { (i + 1) as u32 }
}

/// The ring index `n` places after `i`.
pub open spec fn advance(i: u32, n: nat) -> u32
    decreases n,
{
    if n == 0 { i } else { next_index(advance(i, (n - 1) as nat)) }
}

fn next_index_of(i: u32) -> (r: u32)
    ensures
        r == next_index(i),
{
    if i == u32::MAX { 0 } else { i + 1 }
}

/// What reading the completion queue does: with `head == tail` the queue is
/// empty; otherwise the entry at `head & mask` is taken and the head moves on.
pub open spec fn spec_read(c: UringCounts, head: u32, tail: u32, mask: u32) -> (UringCounts, Result<(u32, u32), UringError>) {
    if head == tail {
        (c, Err(UringError::ReadFromCqEmptyBuffer))
    } else {
        (
            UringCounts { read_total: (c.read_total + 1) as u64, ..c },
            Ok((head & mask, next_index(head))),
        )
    }
}

/// One turn of the spin loop: an entry if there is one; on an empty queue,
/// `JobComplete` once every accepted submission has been read, else `None`
/// (poll again).
pub open spec fn spec_spin(c: UringCounts, head: u32, tail: u32, mask: u32) -> (UringCounts, Result<Option<(u32, u32)>, UringError>) {
    if head == tail {
        if c.read_total == c.submit_total {
            (c, Err(UringError::JobComplete))
        } else {
            (c, Ok(None))
        }
    } else {
        let (c2, r) = spec_read(c, head, tail, mask);
        (c2, Ok(Some(r->Ok_0)))
    }
}

/// What a submission does, given what the enter system call returned.
pub open spec fn spec_submit(c: UringCounts, ret: i32) -> (UringCounts, Result<i32, UringError>) {
    if ret < 0 || ret as u32 != c.submit {
        (c, Err(UringError::SubmitToSqResult(ret)))
    } else {
        (UringCounts { submit: 0, submit_total: (c.submit_total + ret) as u64, ..c }, Ok(ret))
    }
}

/// The counters after a reset.
pub open spec fn spec_reset(c: UringCounts) -> UringCounts {
    UringCounts { read_total: 0, submit: 0, submit_total: 0, ..c }
}

impl Uring {
    /// A ring of `queue_depth` entries (500 when `queue_depth` is 0), with
    /// nothing queued, submitted or read.
    pub fn new(queue_depth: usize) -> (r: Self)
        ensures
            r@.entries == spec_depth(queue_depth),
            r@.read_total == 0,
            r@.submit == 0,
            r@.submit_total == 0,
    {
        let entries = if queue_depth == 0 { QUEUE_DEPTH } else { queue_depth };
        Uring { entries, read_total: 0, submit: 0, submit_total: 0 }
    }

    /// Checks what the setup system call gave back: a negative descriptor is
    /// an error, and so is a kernel whose features lack bit 0 (a completion
    /// for every submission).
    pub fn check_setup(ring_fd: i32, features: u32) -> (r: Result<(), UringError>)
        ensures
            ring_fd < 0 ==> r == Err::<(), UringError>(UringError::SysIoUringSetup(ring_fd)),
            ring_fd >= 0 && features & 1 != 1 ==> r == Err::<(), UringError>(UringError::NotSupported),
            ring_fd >= 0 && features & 1 == 1 ==> r == Ok::<(), UringError>(()),
    {
        if ring_fd < 0 {
            return Err(UringError::SysIoUringSetup(ring_fd));
        }
        if features & 1 != 1 {
            return Err(UringError::NotSupported);
        }
        Ok(())
    }

    /// The length to map for the rings: the larger of the submission ring
    /// (its array offset plus 4 bytes an entry) and the completion ring (its
    /// entries' offset plus 16 bytes an entry).
    pub fn ring_size(sq_array: u32, sq_entries: u32, cq_cqes: u32, cq_entries: u32) -> (r: u32)
        requires
            sq_array + sq_entries * 4 <= u32::MAX,
            cq_cqes + cq_entries * 16 <= u32::MAX,
        ensures
            r == if sq_array + sq_entries * 4 >= cq_cqes + cq_entries * 16 {
                sq_array + sq_entries * 4
            } else {
                cq_cqes + cq_entries * 16
            },
    {
        let sring_sz = sq_array + sq_entries * 4;
        let cring_sz = cq_cqes + cq_entries * 16;
        if sring_sz >= cring_sz { sring_sz } else { cring_sz }
    }

    /// The length to map for the submission entries: 64 bytes an entry.
    pub fn sqes_size(sq_entries: u32) -> (r: u32)
        requires
            sq_entries * 64 <= u32::MAX,
        ensures
            r == sq_entries * 64,
    {
        sq_entries * 64
    }

    /// Checks what a mapping system call gave back: a negative value is an
    /// error (of the ring mapping, or of the entries mapping when `sqes`),
    /// else it is the address.
    pub fn check_mmap(ret: i64, sqes: bool) -> (r: Result<u64, UringError>)
        ensures
            ret >= 0 ==> r == Ok::<u64, UringError>(ret as u64),
            ret < 0 && sqes ==> r == Err::<u64, UringError>(UringError::SysMmapSqes(ret as i32)),
            ret < 0 && !sqes ==> r == Err::<u64, UringError>(UringError::SysMmapSqPtr(ret as i32)),
    {
        if ret < 0 {
            if sqes {
                Err(UringError::SysMmapSqes(ret as i32))
            } else {
                Err(UringError::SysMmapSqPtr(ret as i32))
            }
        } else {
            Ok(ret as u64)
        }
    }

    /// Takes the next completion: given the ring's head, tail and mask, the
    /// slot to read and the head to store back; an error on an empty queue.
    pub fn read_from_cq(&mut self, head: u32, tail: u32, mask: u32) -> (r: Result<(u32, u32), UringError>)
        requires
            head != tail ==> old(self)@.read_total < u64::MAX,
        ensures
            (final(self)@, r) == spec_read(old(self)@, head, tail, mask),
    {
        if head == tail {
            return Err(UringError::ReadFromCqEmptyBuffer);
        }
        let index = head & mask;
        self.read_total = self.read_total + 1;
        Ok((index, next_index_of(head)))
    }

    /// Queues one operation: given the submission ring's tail and mask, the
    /// slot to fill and the tail to store back.
    pub fn add_to_queue(&mut self, tail: u32, mask: u32) -> (r: (u32, u32))
        requires
            old(self)@.submit < u32::MAX,
        ensures
            r == (tail & mask, next_index(tail)),
            final(self)@ == (UringCounts { submit: (old(self)@.submit + 1) as u32, ..old(self)@ }),
    {
        self.submit = self.submit + 1;
        (tail & mask, next_index_of(tail))
    }

    /// One turn of the wait for completions (see `spec_spin`).
    pub fn spin_next(&mut self, head: u32, tail: u32, mask: u32) -> (r: Result<Option<(u32, u32)>, UringError>)
        requires
            head != tail ==> old(self)@.read_total < u64::MAX,
        ensures
            (final(self)@, r) == spec_spin(old(self)@, head, tail, mask),
    {
        match self.read_from_cq(head, tail, mask) {
            Ok(slot) => Ok(Some(slot)),
            Err(_) => {
                if self.read_total == self.submit_total {
                    Err(UringError::JobComplete)
                } else {
                    Ok(None)
                }
            },
        }
    }

    /// How many entries the ring was made with.
    pub fn entries(&self) -> (r: usize)
        ensures
            r == self@.entries,
    {
        self.entries
    }

    /// How many completions were read since the last reset.
    pub fn completions_read(&self) -> (r: u64)
        ensures
            r == self@.read_total,
    {
        self.read_total
    }

    /// How many submissions the kernel accepted since the last reset.
    pub fn submitted(&self) -> (r: u64)
        ensures
            r == self@.submit_total,
    {
        self.submit_total
    }

    /// How many operations are to be queued on the next submission.
    pub fn to_submit(&self) -> (r: u32)
        ensures
            r == self@.submit,
    {
        self.submit
    }

    /// Accounts for a submission, given what the enter system call returned:
    /// anything but the number queued is an error; otherwise the queue count
    /// goes to zero and the total grows by it.
    pub fn submit_all(&mut self, ret: i32) -> (r: Result<i32, UringError>)
        requires
            ret >= 0 ==> old(self)@.submit_total + ret <= u64::MAX,
        ensures
            (final(self)@, r) == spec_submit(old(self)@, ret),
    {
        if ret < 0 {
            return Err(UringError::SubmitToSqResult(ret));
        }
        if ret as u32 != self.submit {
            return Err(UringError::SubmitToSqResult(ret));
        }
        self.submit = 0;
        self.submit_total = self.submit_total + ret as u64;
        Ok(ret)
    }

    /// How many completions are still to come: accepted minus read.
    pub fn pending(&self) -> (r: u64)
        requires
            self@.read_total <= self@.submit_total,
        ensures
            r == self@.submit_total - self@.read_total,
    {
        self.submit_total - self.read_total
    }

    /// Checks what the waiting enter system call returned.
    pub fn _wait_for_all(&self, ret: i32) -> (r: Result<i32, UringError>)
        ensures
            ret < 0 ==> r == Err::<i32, UringError>(UringError::SubmitToSqResult(ret)),
            ret >= 0 ==> r == Ok::<i32, UringError>(ret),
    {
        if ret < 0 {
            Err(UringError::SubmitToSqResult(ret))
        } else {
            Ok(ret)
        }
    }

    /// Sets every count to zero; the size stays.
    pub fn reset(&mut self)
        ensures
            final(self)@ == spec_reset(old(self)@),
    {
        self.read_total = 0;
        self.submit_total = 0;
        self.submit = 0;
    }
}

/// After a reset, an empty completion queue ends the wait at once.
pub proof fn law_reset_then_empty_completes(c: UringCounts, head: u32, mask: u32)
    ensures
        spec_spin(spec_reset(c), head, head, mask).1 == Err::<Option<(u32, u32)>, UringError>(UringError::JobComplete),
        spec_spin(spec_reset(c), head, head, mask).0 == spec_reset(c),
{
}

/// The wait never reports completion while an entry is waiting in the queue
/// or an accepted submission is still unread; and it reports completion on an
/// empty queue once all of them are read.
pub proof fn law_complete_exactly_when_drained(c: UringCounts, head: u32, tail: u32, mask: u32)
    requires
        head != tail ==> c.read_total < u64::MAX,
    ensures
        (spec_spin(c, head, tail, mask).1 == Err::<Option<(u32, u32)>, UringError>(UringError::JobComplete))
            <==> (head == tail && c.read_total == c.submit_total),
{
}

/// The counters after one operation is queued.
pub open spec fn spec_queue(c: UringCounts) -> UringCounts {
    UringCounts { submit: (c.submit + 1) as u32, ..c }
}

/// The counters after `n` operations are queued.
pub open spec fn spec_queue_n(c: UringCounts, n: nat) -> UringCounts
    decreases n,
{
    if n == 0 { c } else { spec_queue(spec_queue_n(c, (n - 1) as nat)) }
}

/// The counters after the `n` entries from `head` on are read from a queue
/// whose tail is `n` places after `head`.
pub open spec fn spec_read_n(c: UringCounts, head: u32, n: nat, mask: u32) -> UringCounts
    decreases n,
{
    if n == 0 {
        c
    } else {
        let prev = spec_read_n(c, head, (n - 1) as nat, mask);
        spec_read(prev, advance(head, (n - 1) as nat), advance(head, n), mask).0
    }
}

proof fn lemma_next_index_moves(i: u32)
    ensures
        next_index(i) != i,
{
}

/// The index `n` places after `h` is `h + n` modulo 2^32.
proof fn lemma_advance_mod(h: u32, n: nat)
    ensures
        advance(h, n) as int == (h + n) % 0x1_0000_0000,
    decreases n,
{
    let m: int = 0x1_0000_0000;
    if n == 0 {
        vstd::arithmetic::div_mod::lemma_fundamental_div_mod_converse_mod(h as int, m, 0, h as int);
    } else {
        lemma_advance_mod(h, (n - 1) as nat);
        let x: int = h + n - 1;
        vstd::arithmetic::div_mod::lemma_fundamental_div_mod(x, m);
        let q = x / m;
        let a = x % m;
        assert(x == q * m + a) by (nonlinear_arith)
            requires x == m * q + a;
        if a == m - 1 {
            assert(x + 1 == (q + 1) * m + 0) by (nonlinear_arith)
                requires x == q * m + a, a == m - 1;
            vstd::arithmetic::div_mod::lemma_fundamental_div_mod_converse_mod(x + 1, m, q + 1, 0);
        } else {
            vstd::arithmetic::div_mod::lemma_fundamental_div_mod_converse_mod(x + 1, m, q, a + 1);
        }
    }
}

/// Indices fewer than 2^32 places apart differ.
proof fn lemma_advance_distinct(h: u32, i: nat, k: nat)
    requires
        i < k < i + 0x1_0000_0000,
    ensures
        advance(h, i) != advance(h, k),
{
    let m: int = 0x1_0000_0000;
    lemma_advance_mod(h, i);
    lemma_advance_mod(h, k);
    let x: int = h + i;
    let y: int = h + k;
    vstd::arithmetic::div_mod::lemma_fundamental_div_mod(x, m);
    vstd::arithmetic::div_mod::lemma_fundamental_div_mod(y, m);
    let qx = x / m;
    let qy = y / m;
    if x % m == y % m {
        assert(y - x == m * (qy - qx)) by (nonlinear_arith)
            requires x == m * qx + x % m, y == m * qy + y % m, x % m == y % m;
        assert(false) by (nonlinear_arith)
            requires y - x == m * (qy - qx), 0 < y - x < m, m > 0;
    }
}

proof fn lemma_queue_n(c: UringCounts, n: nat)
    requires
        c.submit + n <= u32::MAX,
    ensures
        spec_queue_n(c, n) == (UringCounts { submit: (c.submit + n) as u32, ..c }),
    decreases n,
{
    if n > 0 {
        lemma_queue_n(c, (n - 1) as nat);
    }
}

proof fn lemma_read_n(c: UringCounts, head: u32, n: nat, mask: u32)
    requires
        c.read_total + n <= u64::MAX,
    ensures
        spec_read_n(c, head, n, mask) == (UringCounts { read_total: (c.read_total + n) as u64, ..c }),
    decreases n,
{
    if n > 0 {
        lemma_read_n(c, head, (n - 1) as nat, mask);
        lemma_next_index_moves(advance(head, (n - 1) as nat));
    }
}

/// After a reset, queueing `k` operations and a submission that the kernel
/// accepts whole leaves `k` accepted and none queued. The `k` completions
/// then in the queue are read one by one: the `i`-th read takes the slot of
/// the index `i` places after the head and hands back the next index as the
/// new head, and none of them reports completion; no index is read twice;
/// once all `k` are read, the wait on the then empty queue reports
/// completion.
pub proof fn law_submit_then_read_all(c: UringCounts, k: u32, head: u32, mask: u32)
    requires
        k <= i32::MAX,
    ensures
        ({
            let queued = spec_queue_n(spec_reset(c), k as nat);
            let (sent, r) = spec_submit(queued, k as i32);
            let drained = spec_read_n(sent, head, k as nat, mask);
            &&& r == Ok::<i32, UringError>(k as i32)
            &&& sent.submit == 0
            &&& sent.submit_total == k
            &&& forall|i: nat| i < k ==> #[trigger] spec_spin(spec_read_n(sent, head, i, mask), advance(head, i),
                advance(head, k as nat), mask).1
                == Ok::<Option<(u32, u32)>, UringError>(Some((advance(head, i) & mask, advance(head, i + 1))))
            &&& forall|i: nat, j: nat| i < j < k ==> #[trigger] advance(head, i) != #[trigger] advance(head, j)
            &&& spec_spin(drained, advance(head, k as nat), advance(head, k as nat), mask).1
                == Err::<Option<(u32, u32)>, UringError>(UringError::JobComplete)
        }),
{
    lemma_queue_n(spec_reset(c), k as nat);
    let queued = spec_queue_n(spec_reset(c), k as nat);
    let (sent, r) = spec_submit(queued, k as i32);
    lemma_read_n(sent, head, k as nat, mask);
    assert forall|i: nat| i < k implies #[trigger] spec_spin(spec_read_n(sent, head, i, mask), advance(head, i),
        advance(head, k as nat), mask).1
        == Ok::<Option<(u32, u32)>, UringError>(Some((advance(head, i) & mask, advance(head, i + 1)))) by {
        lemma_advance_distinct(head, i, k as nat);
        lemma_read_n(sent, head, i, mask);
    }
    assert forall|i: nat, j: nat| i < j < k implies #[trigger] advance(head, i) != #[trigger] advance(head, j) by {
        lemma_advance_distinct(head, i, j);
    }
}

} // verus!
