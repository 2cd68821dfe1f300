use vstd::prelude::*;

verus! {

/// A diagnostic message on its way to the subscriber it was written for.
#[derive(Debug, Clone, PartialEq, Eq)]
pub struct LogEntry {
    pub subscriber: u64,
    pub message: String,
}

/// The diagnostic stream: at most one subscriber, and the messages not yet
/// handed to it.
#[derive(Debug, Clone, PartialEq, Eq)]
pub struct LogSink {
    pub subscriber: Option<u64>,
    pub pending: Vec<LogEntry>,
}

impl LogSink {
    /// The messages waiting in the sink, each with the subscriber it is for.
    pub open spec fn view(self) -> Seq<(u64, Seq<char>)> {
        self.pending@.map_values(|e: LogEntry| (e.subscriber, e.message@))
    }

    /// A sink without subscriber and without messages.
    pub fn new() -> (sink: LogSink)
        ensures
            sink.subscriber is None,
            sink@ == Seq::<(u64, Seq<char>)>::empty(),
    {
        let sink = LogSink { subscriber: None, pending: Vec::new() };
        assert(sink@ =~= Seq::<(u64, Seq<char>)>::empty());
        sink
    }

    /// Hands out the waiting messages and leaves none behind; the subscriber stays.
    pub fn drain(&mut self) -> (out: Vec<LogEntry>)
        ensures
            out@.map_values(|e: LogEntry| (e.subscriber, e.message@)) == old(self)@,
            final(self).subscriber == old(self).subscriber,
            final(self)@ == Seq::<(u64, Seq<char>)>::empty(),
    {
        let mut out: Vec<LogEntry> = Vec::new();
        std::mem::swap(&mut out, &mut self.pending);
        assert(self@ =~= Seq::<(u64, Seq<char>)>::empty());
        out
    }
}

/// Registers `subscriber` as the one receiver of diagnostics. An earlier
/// registration is replaced without notice; messages already written stay
/// with the subscriber they were written for.
pub fn register_log_callback(sink: &mut LogSink, subscriber: u64)
    ensures
        final(sink).subscriber == Some(subscriber),
        final(sink)@ == old(sink)@,
{
    sink.subscriber = Some(subscriber);
}

/// Writes `msg` to the diagnostic stream: it is queued for the current
/// subscriber, and dropped where there is none.
pub fn rust_log(sink: &mut LogSink, msg: &str)
    ensures
        final(sink).subscriber == old(sink).subscriber,
        match old(sink).subscriber {
            Some(id) => final(sink)@ == old(sink)@.push((id, msg@)),
            None => final(sink)@ == old(sink)@,
        },
{
    match sink.subscriber {
        Some(id) => {
            sink.pending.push(LogEntry { subscriber: id, message: msg.to_owned() });
            assert(sink@ =~= old(sink)@.push((id, msg@)));
        },
        None => {},
    }
}

} // verus!
