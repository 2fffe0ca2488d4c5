//! Serial-link rules of a rotor: the liveness watchdog, reply framing over a
//! byte transport, retry pacing and port descriptions. The transport itself
//! is implemented outside.
use vstd::prelude::*;
use crate::text::owned;
use vstd::string::StringSliceAdditionalSpecFns;
use super::backend::RotorBackendError;

verus! {

/// Upper bound for a position-query reply, and the port read timeout.
pub const READ_TIMEOUT_MS: u64 = 500;
/// Query, read and parse attempts before giving up.
pub const MAX_RETRY: u32 = 3;
/// Wait between retries.
pub const RETRY_BACKOFF_MS: u64 = 200;
/// The link counts as lost this long after the last successful query.
pub const WATCHDOG_TIMEOUT_MS: u64 = 5000;
/// Hard cap on the bytes of one readout.
pub const MAX_RESPONSE_BYTES: usize = 64;

/// Tracks link liveness from the last successful exchange, as a reading of a
/// monotonic millisecond clock supplied by the caller.
#[derive(Debug, Clone, Copy, PartialEq, Eq, Structural)]
pub struct Watchdog {
    pub last_ok: Option<u64>,
}

/// Whether a link last confirmed at `last_ok` is alive at `now`: it was
/// confirmed at all, and less than the watchdog window has elapsed (a clock
/// reading before the confirmation counts as no time elapsed).
pub open spec fn alive_at(last_ok: Option<u64>, now: u64) -> bool {
    match last_ok {
        Some(t) => now < t + WATCHDOG_TIMEOUT_MS,
        None => false,
    }
}

impl Watchdog {
    /// A watchdog that has seen no successful exchange.
    pub fn new() -> (w: Watchdog)
        ensures
            w.last_ok is None,
    {
        Watchdog { last_ok: None }
    }

    /// Marks a successful exchange at `now_ms`.
    pub fn touch(&mut self, now_ms: u64)
        ensures
            final(self).last_ok == Some(now_ms),
    {
        self.last_ok = Some(now_ms);
    }

    /// True while within the watchdog window of the last success; a link that
    /// never succeeded is not alive.
    pub fn is_alive(&self, now_ms: u64) -> (r: bool)
        ensures
            r == alive_at(self.last_ok, now_ms),
    {
        match self.last_ok {
            Some(t) => now_ms < t || now_ms - t < WATCHDOG_TIMEOUT_MS,
            None => false,
        }
    }
}

impl Default for Watchdog {
    fn default() -> (w: Watchdog)
        ensures
            w.last_ok is None,
    {
        Watchdog::new()
    }
}

/// A freshly touched watchdog is alive until the window passes, and then
/// stays dead until touched again.
pub proof fn watchdog_window(t: u64, now: u64, later: u64)
    requires
        now <= later,
    ensures
        t <= now < t + WATCHDOG_TIMEOUT_MS ==> alive_at(Some(t), now),
        !alive_at(Some(t), now) ==> !alive_at(Some(t), later),
        !alive_at(None, now),
{
}

/// The byte that ends a reply: the last byte of the line ending, if any.
pub fn terminator_of(line_ending: &str) -> (r: Option<u8>)
    ensures
        line_ending.spec_bytes().len() == 0 ==> r is None,
        line_ending.spec_bytes().len() > 0 ==> r == Some(line_ending.spec_bytes().last()),
{
    let bytes = line_ending.as_bytes();
    if bytes.len() == 0 {
        None
    } else {
        Some(bytes[bytes.len() - 1])
    }
}

/// Whether a reply read so far is complete: it reached the size cap, or its
/// last byte is the terminator.
pub open spec fn reply_done(buf: Seq<u8>, terminator: Option<u8>) -> bool {
    buf.len() >= MAX_RESPONSE_BYTES || (buf.len() > 0 && terminator == Some(buf.last()))
}

/// Whether reading a reply stops after the bytes read so far.
pub fn reply_complete(buf: &Vec<u8>, terminator: Option<u8>) -> (r: bool)
    ensures
        r == reply_done(buf@, terminator),
{
    if buf.len() >= MAX_RESPONSE_BYTES {
        return true;
    }
    match terminator {
        Some(t) => buf.len() > 0 && buf[buf.len() - 1] == t,
        None => false,
    }
}

/// What one single-byte read from a transport gives.
#[derive(Debug, Clone, PartialEq, Eq)]
pub enum ReadStep {
    /// One byte arrived.
    Byte(u8),
    /// The transport has no more bytes.
    End,
    /// Nothing arrived within the read timeout.
    TimedOut,
    /// The read failed; carries the error text.
    Failed(String),
}

/// A byte transport a rotor talks over (a serial port, or a stand-in). Its
/// methods are I/O and promise nothing about what they give.
pub trait RotorTransport {
    /// Reads at most one byte.
    fn read_step(&mut self) -> ReadStep;

    /// Writes and flushes all the bytes; the error text on failure.
    fn write_all_bytes(&mut self, bytes: &[u8]) -> Result<(), String>;

    /// Drops buffered inbound bytes before a fresh query (best-effort).
    fn discard_input(&mut self) -> Result<(), String>;
}

/// Whether reading stopped as soon as the reply was complete: no proper
/// prefix of it was.
pub open spec fn stops_at_completion(buf: Seq<u8>, terminator: Option<u8>) -> bool {
    forall|k: int| 0 <= k < buf.len() ==> !reply_done(#[trigger] buf.take(k), terminator)
}

/// The reply that a run of read outcomes frames from `buf` on, when reading
/// stops exactly after the run's last outcome (`None` when it does not): a
/// byte is appended while the reply is not complete; a complete reply ends
/// the run; the end of input or a timeout ends it as it stands; a failed read
/// ends it with the failure's text.
pub open spec fn framed(buf: Seq<u8>, steps: Seq<ReadStep>, terminator: Option<u8>) -> Option<
    Result<Seq<u8>, Seq<char>>,
>
    decreases steps.len(),
{
    if reply_done(buf, terminator) {
        if steps.len() == 0 {
            Some(Ok(buf))
        } else {
            None
        }
    } else if steps.len() == 0 {
        None
    } else {
        match steps[0] {
            ReadStep::Byte(b) => framed(buf.push(b), steps.drop_first(), terminator),
            ReadStep::End => if steps.len() == 1 {
                Some(Ok(buf))
            } else {
                None
            },
            ReadStep::TimedOut => if steps.len() == 1 {
                Some(Ok(buf))
            } else {
                None
            },
            ReadStep::Failed(m) => if steps.len() == 1 {
                Some(Err(m@))
            } else {
                None
            },
        }
    }
}

/// A reply result as bytes or the text of its I/O failure.
pub open spec fn reply_view(r: Result<Vec<u8>, RotorBackendError>) -> Result<Seq<u8>, Seq<char>> {
    match r {
        Ok(b) => Ok(b@),
        Err(RotorBackendError::Io(m)) => Err(m@),
        Err(_) => Err(Seq::empty()),
    }
}

/// Reading a run of bytes that completes no reply before its end frames the
/// same as starting from the bytes already appended.
pub proof fn lemma_framed_bytes(
    buf0: Seq<u8>,
    bs: Seq<u8>,
    steps: Seq<ReadStep>,
    tail: Seq<ReadStep>,
    terminator: Option<u8>,
)
    requires
        steps.len() == bs.len(),
        forall|i: int| 0 <= i < steps.len() ==> steps[i] == ReadStep::Byte(bs[i]),
        forall|k: int| 0 <= k < bs.len() ==> !reply_done(#[trigger] (buf0 + bs.take(k)), terminator),
    ensures
        framed(buf0, steps + tail, terminator) == framed(buf0 + bs, tail, terminator),
    decreases steps.len(),
{
    if steps.len() == 0 {
        assert(steps + tail =~= tail);
        assert(buf0 + bs =~= buf0);
    } else {
        assert(buf0 + bs.take(0) =~= buf0);
        assert(!reply_done(buf0 + bs.take(0), terminator));
        assert((steps + tail)[0] == steps[0]);
        assert((steps + tail).drop_first() =~= steps.drop_first() + tail);
        let b = bs[0];
        let rest = bs.drop_first();
        assert forall|k: int| 0 <= k < rest.len() implies !reply_done(
            #[trigger] (buf0.push(b) + rest.take(k)),
            terminator,
        ) by {
            assert(buf0.push(b) + rest.take(k) =~= buf0 + bs.take(k + 1));
            assert(!reply_done(buf0 + bs.take(k + 1), terminator));
        }
        assert forall|i: int| 0 <= i < steps.drop_first().len() implies steps.drop_first()[i]
            == ReadStep::Byte(rest[i]) by {
            assert(steps[i + 1] == ReadStep::Byte(bs[i + 1]));
        }
        lemma_framed_bytes(buf0.push(b), rest, steps.drop_first(), tail, terminator);
        assert(buf0.push(b) + rest =~= buf0 + bs);
    }
}

/// Takes one read outcome into a reply: a byte is appended and reading goes
/// on (`None`); the end of input or a timeout ends the reply (`Some(Ok)`); a
/// failed read ends it with an I/O error carrying the failure's text.
pub fn absorb_step(buf: &mut Vec<u8>, step: ReadStep) -> (r: Option<Result<(), RotorBackendError>>)
    ensures
        match step {
            ReadStep::Byte(b) => final(buf)@ == old(buf)@.push(b) && r is None,
            ReadStep::End => final(buf)@ == old(buf)@ && r matches Some(Ok(_)),
            ReadStep::TimedOut => final(buf)@ == old(buf)@ && r matches Some(Ok(_)),
            ReadStep::Failed(m) => final(buf)@ == old(buf)@ && (r matches Some(
                Err(RotorBackendError::Io(x)),
            ) && x@ == m@),
        },
{
    match step {
        ReadStep::Byte(b) => {
            buf.push(b);
            None
        },
        ReadStep::End => Some(Ok(())),
        ReadStep::TimedOut => Some(Ok(())),
        ReadStep::Failed(m) => Some(Err(RotorBackendError::Io(m))),
    }
}

/// Reads one reply: single bytes until the reply is complete (the size cap
/// or the terminator), the end of input, or a read timeout. A failed read
/// is an I/O error. The result is what the run of outcomes that the
/// transport gave frames; which outcomes it gives is the transport's.
pub fn read_reply<T: RotorTransport>(transport: &mut T, terminator: Option<u8>) -> (r: Result<
    Vec<u8>,
    RotorBackendError,
>)
    ensures
        r matches Ok(buf) ==> buf@.len() <= MAX_RESPONSE_BYTES && stops_at_completion(
            buf@,
            terminator,
        ),
        r matches Err(e) ==> e is Io,
        exists|steps: Seq<ReadStep>| #[trigger]
            framed(Seq::<u8>::empty(), steps, terminator) == Some(reply_view(r)),
{
    let mut buf: Vec<u8> = Vec::new();
    let ghost mut steps: Seq<ReadStep> = Seq::empty();
    loop
        invariant
            buf@.len() <= MAX_RESPONSE_BYTES,
            stops_at_completion(buf@, terminator),
            steps.len() == buf@.len(),
            forall|i: int| 0 <= i < steps.len() ==> steps[i] == ReadStep::Byte(buf@[i]),
        decreases MAX_RESPONSE_BYTES - buf@.len(),
    {
        proof {
            assert forall|k: int| 0 <= k < buf@.len() implies !reply_done(
                #[trigger] (Seq::<u8>::empty() + buf@.take(k)),
                terminator,
            ) by {
                assert(Seq::<u8>::empty() + buf@.take(k) =~= buf@.take(k));
            }
        }
        if reply_complete(&buf, terminator) {
            proof {
                lemma_framed_bytes(Seq::empty(), buf@, steps, Seq::empty(), terminator);
                assert(steps + Seq::<ReadStep>::empty() =~= steps);
                assert(Seq::<u8>::empty() + buf@ =~= buf@);
                assert(framed(Seq::<u8>::empty(), steps, terminator) == Some(reply_view(Ok(buf))));
            }
            return Ok(buf);
        }
        let step = transport.read_step();
        let ghost s = step;
        let ghost before = buf@;
        match absorb_step(&mut buf, step) {
            None => {
                proof {
                    let b = s->Byte_0;
                    assert forall|k: int| 0 <= k < buf@.len() implies !reply_done(
                        #[trigger] buf@.take(k),
                        terminator,
                    ) by {
                        if k < before.len() {
                            assert(buf@.take(k) =~= before.take(k));
                        } else {
                            assert(buf@.take(k) =~= before);
                        }
                    }
                    steps = steps.push(ReadStep::Byte(b));
                }
            },
            Some(Ok(())) => {
                proof {
                    lemma_framed_bytes(Seq::empty(), buf@, steps, seq![s], terminator);
                    assert(Seq::<u8>::empty() + buf@ =~= buf@);
                    assert(seq![s].drop_first() =~= Seq::<ReadStep>::empty());
                    assert(framed(Seq::<u8>::empty(), steps + seq![s], terminator) == Some(
                        reply_view(Ok(buf)),
                    ));
                }
                return Ok(buf);
            },
            Some(Err(e)) => {
                proof {
                    lemma_framed_bytes(Seq::empty(), buf@, steps, seq![s], terminator);
                    assert(Seq::<u8>::empty() + buf@ =~= buf@);
                    assert(framed(Seq::<u8>::empty(), steps + seq![s], terminator) == Some(
                        reply_view(Err::<Vec<u8>, RotorBackendError>(e)),
                    ));
                }
                return Err(e);
            },
        }
    }
}

/// What a write's outcome makes of a command: done, or an I/O error carrying
/// the failure's text.
pub fn write_outcome(w: Result<(), String>) -> (r: Result<(), RotorBackendError>)
    ensures
        match w {
            Ok(_) => r matches Ok(_),
            Err(m) => (r matches Err(RotorBackendError::Io(x)) && x@ == m@),
        },
{
    match w {
        Ok(()) => Ok(()),
        Err(m) => Err(RotorBackendError::Io(m)),
    }
}

/// Writes a command to the transport; a failed write is an I/O error
/// carrying its text. Whether the write succeeds is the transport's.
pub fn send_bytes<T: RotorTransport>(transport: &mut T, bytes: &[u8]) -> (r: Result<
    (),
    RotorBackendError,
>)
    ensures
        r matches Err(e) ==> e is Io,
{
    write_outcome(transport.write_all_bytes(bytes))
}

/// Whether to wait before the next attempt: every attempt but the last.
pub fn backs_off_after(attempt: u32) -> (r: bool)
    ensures
        r == (attempt + 1 < MAX_RETRY),
{
    attempt < MAX_RETRY - 1
}

/// The data bits a port is opened with: 5, 6 or 7 as configured, else 8.
pub fn effective_data_bits(configured: u8) -> (r: u8)
    ensures
        r == if 5 <= configured <= 7 {
            configured
        } else {
            8
        },
{
    if 5 <= configured && configured <= 7 {
        configured
    } else {
        8
    }
}

/// A serial port present on the host.
#[derive(Debug, Clone, PartialEq, Eq)]
pub struct SerialPortSummary {
    pub name: String,
    pub kind: String,
}

/// The kind of bus a serial port sits on.
#[derive(Debug, Clone, Copy, PartialEq, Eq, Structural)]
pub enum PortKind {
    Usb,
    Bluetooth,
    Pci,
    Unknown,
}

/// The label shown for a port kind.
pub open spec fn port_kind_text(k: PortKind) -> Seq<char> {
    match k {
        PortKind::Usb => "usb"@,
        PortKind::Bluetooth => "bluetooth"@,
        PortKind::Pci => "pci"@,
        PortKind::Unknown => "unknown"@,
    }
}

impl PortKind {
    /// The label shown for this port kind.
    pub fn label(&self) -> (s: String)
        ensures
            s@ == port_kind_text(*self),
    {
        match self {
            PortKind::Usb => owned("usb"),
            PortKind::Bluetooth => owned("bluetooth"),
            PortKind::Pci => owned("pci"),
            PortKind::Unknown => owned("unknown"),
        }
    }
}

/// A port summary with the label of its kind.
pub fn port_summary(name: String, kind: PortKind) -> (s: SerialPortSummary)
    ensures
        s.name == name,
        s.kind@ == port_kind_text(kind),
{
    SerialPortSummary { name, kind: kind.label() }
}

} // verus!
