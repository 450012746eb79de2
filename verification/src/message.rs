//! The diagnostics channel: an ordered, append-only log of levelled
//! text entries collected while one operation runs.

use vstd::prelude::*;

verus! {

/// Severity of one diagnostic entry.
#[derive(Clone, Copy, Debug, PartialEq, Eq, Structural)]
pub enum Level {
    Info,
    Error,
    Debug,
}

/// One logged entry, as the specifications see it: a level and the
/// text's characters.
pub type Entry = (Level, Seq<char>);

/// True of an entry that reports an error.
pub open spec fn is_error_entry(e: Entry) -> bool {
    e.0 is Error
}

/// How many of the entries report errors.
pub open spec fn count_errors(entries: Seq<Entry>) -> int
    decreases entries.len(),
{
    if entries.len() == 0 {
        0
    } else {
        count_errors(entries.drop_last()) + if is_error_entry(entries.last()) {
            1int
        } else {
            0int
        }
    }
}

/// The error count lies between zero and the number of entries.
pub proof fn lemma_count_errors_bounded(entries: Seq<Entry>)
    ensures
        0 <= count_errors(entries) <= entries.len(),
    decreases entries.len(),
{
    if entries.len() > 0 {
        lemma_count_errors_bounded(entries.drop_last());
    }
}

/// Counting errors distributes over concatenation.
pub proof fn lemma_count_errors_add(a: Seq<Entry>, b: Seq<Entry>)
    ensures
        count_errors(a + b) == count_errors(a) + count_errors(b),
    decreases b.len(),
{
    if b.len() == 0 {
        assert(a + b =~= a);
    } else {
        lemma_count_errors_add(a, b.drop_last());
        assert((a + b).drop_last() =~= a + b.drop_last());
    }
}

/// An ordered log of diagnostics. Entries are only ever appended.
pub struct Messages {
    /// The entries, oldest first.
    pub entries: Vec<(Level, String)>,
    /// A free status word for callers; nothing here interprets it.
    pub status: u16,
}

impl View for Messages {
    type V = Seq<Entry>;

    open spec fn view(&self) -> Seq<Entry> {
        Seq::new(self.entries@.len(), |i: int| (self.entries@[i].0, self.entries@[i].1@))
    }
}

impl Messages {
    /// An empty log.
    pub fn new() -> (r: Messages)
        ensures
            r@ =~= Seq::<Entry>::empty(),
            r.status == 0,
    {
        Messages { entries: Vec::new(), status: 0 }
    }

    /// Append one entry at the given level.
    fn push_entry(&mut self, level: Level, msg: &str)
        ensures
            final(self)@ =~= old(self)@.push((level, msg@)),
            final(self).status == old(self).status,
    {
        self.entries.push((level, String::from_str(msg)));
    }

    /// Append an informational entry.
    pub fn info(&mut self, msg: &str)
        ensures
            final(self)@ =~= old(self)@.push((Level::Info, msg@)),
            final(self).status == old(self).status,
    {
        self.push_entry(Level::Info, msg);
    }

    /// Append an error entry.
    pub fn error(&mut self, msg: &str)
        ensures
            final(self)@ =~= old(self)@.push((Level::Error, msg@)),
            final(self).status == old(self).status,
    {
        self.push_entry(Level::Error, msg);
    }

    /// Append a debugging entry.
    pub fn debug(&mut self, msg: &str)
        ensures
            final(self)@ =~= old(self)@.push((Level::Debug, msg@)),
            final(self).status == old(self).status,
    {
        self.push_entry(Level::Debug, msg);
    }

    /// Whether any entry reports an error.
    pub fn has_errors(&self) -> (r: bool)
        ensures
            r == (count_errors(self@) > 0),
    {
        let n = self.error_count();
        n > 0
    }

    /// How many entries report errors.
    pub fn error_count(&self) -> (r: usize)
        ensures
            r == count_errors(self@),
    {
        proof {
            lemma_count_errors_bounded(self@);
        }
        let mut count: usize = 0;
        let mut i: usize = 0;
        while i < self.entries.len()
            invariant
                i <= self.entries.len(),
                count == count_errors(self@.take(i as int)),
                count <= i,
            decreases self.entries.len() - i,
        {
            proof {
                assert(self@.take(i + 1).drop_last() =~= self@.take(i as int));
                assert(self@.take(i + 1).last() == self@[i as int]);
            }
            let is_err = match self.entries[i].0 {
                Level::Error => true,
                _ => false,
            };
            if is_err {
                count = count + 1;
            }
            i = i + 1;
        }
        proof {
            assert(self@.take(self.entries.len() as int) =~= self@);
        }
        count
    }

    /// Append every entry of `other`, in order, after this log's own.
    pub fn combine(&mut self, other: Messages)
        ensures
            final(self)@ =~= old(self)@ + other@,
            final(self).status == old(self).status,
    {
        let mut i: usize = 0;
        while i < other.entries.len()
            invariant
                i <= other.entries.len(),
                self@ =~= old(self)@ + other@.take(i as int),
                self.status == old(self).status,
            decreases other.entries.len() - i,
        {
            let level = other.entries[i].0;
            let text = other.entries[i].1.clone();
            self.entries.push((level, text));
            proof {
                assert(old(self)@ + other@.take(i + 1) =~= (old(self)@ + other@.take(
                    i as int,
                )).push((other.entries@[i as int].0, other.entries@[i as int].1@)));
            }
            i = i + 1;
        }
        proof {
            assert(other@.take(other.entries.len() as int) =~= other@);
        }
    }
}

} // verus!
