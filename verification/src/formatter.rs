//! Labeled output, recorded in memory.
//!
//! A template writes characters, and opens and closes labels around them. What it has
//! written is recorded here, so that it can be looked at, laid out anew and replayed.
use vstd::prelude::*;

use crate::text::chars_of;

verus! {

/// One step of labeled output.
#[derive(Debug)]
pub enum FormatOp {
    /// Writes a character.
    Char(char),
    /// Opens a label.
    PushLabel(String),
    /// Closes the label that was opened last.
    PopLabel,
}

/// What a [`FormatOp`] stands for.
pub enum OutputOp {
    Char(char),
    PushLabel(Seq<char>),
    PopLabel,
}

/// Labeled output as a whole.
pub type Output = Seq<OutputOp>;

impl DeepView for FormatOp {
    type V = OutputOp;

    open spec fn deep_view(&self) -> OutputOp {
        match self {
            FormatOp::Char(c) => OutputOp::Char(*c),
            FormatOp::PushLabel(label) => OutputOp::PushLabel(label@),
            FormatOp::PopLabel => OutputOp::PopLabel,
        }
    }
}

/// The characters of `output`, without its labels.
pub open spec fn text_of(output: Output) -> Seq<char>
    decreases output.len(),
{
    if output.len() == 0 {
        Seq::empty()
    } else {
        match output.last() {
            OutputOp::Char(c) => text_of(output.drop_last()).push(c),
            _ => text_of(output.drop_last()),
        }
    }
}

/// The step that writes `c`.
pub open spec fn written(c: char) -> OutputOp {
    OutputOp::Char(c)
}

/// The output that writes `text` and nothing else.
pub open spec fn plain(text: Seq<char>) -> Output {
    text.map_values(|c: char| written(c))
}

/// The output that opens `labels`, in order.
pub open spec fn opened(labels: Seq<Seq<char>>) -> Output {
    labels.map_values(|label: Seq<char>| OutputOp::PushLabel(label))
}

/// The output that closes `count` labels.
pub open spec fn closed(count: nat) -> Output {
    Seq::new(count, |i: int| OutputOp::PopLabel)
}

/// `content` inside `labels`.
pub open spec fn labeled(labels: Seq<Seq<char>>, content: Output) -> Output {
    opened(labels) + content + closed(labels.len())
}

/// `contents` one behind the other, with `separator` between each two.
pub open spec fn joined(contents: Seq<Output>, separator: Output) -> Output
    decreases contents.len(),
{
    if contents.len() == 0 {
        Seq::empty()
    } else if contents.len() == 1 {
        contents[0]
    } else {
        joined(contents.drop_last(), separator) + separator + contents.last()
    }
}

/// Recorded output.
pub struct FormatRecorder {
    ops: Vec<FormatOp>,
}

impl View for FormatRecorder {
    type V = Output;

    closed spec fn view(&self) -> Output {
        self.ops.deep_view()
    }
}

impl DeepView for FormatRecorder {
    type V = Output;

    open spec fn deep_view(&self) -> Output {
        self@
    }
}

impl FormatRecorder {
    /// A recorder that holds nothing yet.
    pub fn new() -> (recorder: FormatRecorder)
        ensures
            recorder@ == Output::empty(),
    {
        let recorder = FormatRecorder { ops: Vec::new() };
        proof {
            assert(recorder@ =~= Output::empty());
        }
        recorder
    }

    /// The recorded steps.
    pub fn ops(&self) -> (ops: &Vec<FormatOp>)
        ensures
            ops.deep_view() == self@,
    {
        &self.ops
    }

    /// Writes one character.
    pub fn write_char(&mut self, c: char)
        ensures
            final(self)@ == old(self)@.push(OutputOp::Char(c)),
    {
        self.ops.push(FormatOp::Char(c));
        proof {
            assert(self@ =~= old(self)@.push(OutputOp::Char(c)));
        }
    }

    /// Writes `text`.
    pub fn write_str(&mut self, text: &str)
        ensures
            final(self)@ == old(self)@ + plain(text@),
    {
        let chars = chars_of(text);
        let mut i: usize = 0;
        let ghost all = plain(text@);
        while i < chars.len()
            invariant
                i <= chars@.len(),
                chars@ == text@,
                all == plain(text@),
                all.len() == chars@.len(),
                self@ =~= old(self)@ + all.take(i as int),
            decreases chars@.len() - i,
        {
            self.write_char(chars[i]);
            proof {
                assert(all.take(i + 1) =~= all.take(i as int).push(all[i as int]));
            }
            i += 1;
        }
        proof {
            assert(all.take(i as int) =~= all);
        }
    }

    /// Opens `label`.
    pub fn push_label(&mut self, label: &str)
        ensures
            final(self)@ == old(self)@.push(OutputOp::PushLabel(label@)),
    {
        self.ops.push(FormatOp::PushLabel(label.to_owned()));
        proof {
            assert(self@ =~= old(self)@.push(OutputOp::PushLabel(label@)));
        }
    }

    /// Closes the label that was opened last.
    pub fn pop_label(&mut self)
        ensures
            final(self)@ == old(self)@.push(OutputOp::PopLabel),
    {
        self.ops.push(FormatOp::PopLabel);
        proof {
            assert(self@ =~= old(self)@.push(OutputOp::PopLabel));
        }
    }

    /// Opens each of `labels`, in order.
    pub fn push_labels(&mut self, labels: &Vec<String>)
        ensures
            final(self)@ == old(self)@ + opened(labels.deep_view()),
    {
        let mut i: usize = 0;
        let ghost all = opened(labels.deep_view());
        while i < labels.len()
            invariant
                i <= labels@.len(),
                all == opened(labels.deep_view()),
                self@ =~= old(self)@ + all.take(i as int),
            decreases labels@.len() - i,
        {
            self.push_label(labels[i].as_str());
            proof {
                assert(all.take(i + 1) =~= all.take(i as int).push(all[i as int]));
            }
            i += 1;
        }
        proof {
            assert(all.take(i as int) =~= all);
        }
    }

    /// Closes `count` labels.
    pub fn pop_labels(&mut self, count: usize)
        ensures
            final(self)@ == old(self)@ + closed(count as nat),
    {
        let mut i: usize = 0;
        while i < count
            invariant
                i <= count,
                self@ =~= old(self)@ + closed(i as nat),
            decreases count - i,
        {
            self.pop_label();
            proof {
                assert(closed((i + 1) as nat) =~= closed(i as nat).push(OutputOp::PopLabel));
            }
            i += 1;
        }
    }

    /// Writes one recorded step.
    fn write_op(&mut self, op: &FormatOp)
        ensures
            final(self)@ == old(self)@.push(op.deep_view()),
    {
        match op {
            FormatOp::Char(c) => self.write_char(*c),
            FormatOp::PushLabel(label) => self.push_label(label.as_str()),
            FormatOp::PopLabel => self.pop_label(),
        }
    }

    /// Writes all that is recorded here to `formatter`.
    pub fn replay(&self, formatter: &mut FormatRecorder)
        ensures
            final(formatter)@ == old(formatter)@ + self@,
    {
        let mut i: usize = 0;
        while i < self.ops.len()
            invariant
                i <= self.ops@.len(),
                formatter@ =~= old(formatter)@ + self@.take(i as int),
            decreases self.ops@.len() - i,
        {
            formatter.write_op(&self.ops[i]);
            proof {
                assert(self@.take(i + 1) =~= self@.take(i as int).push(self@[i as int]));
            }
            i += 1;
        }
        proof {
            assert(self@.take(i as int) =~= self@);
        }
    }

    /// The recorded characters.
    pub fn text(&self) -> (text: String)
        ensures
            text@ == text_of(self@),
    {
        let mut text = String::new();
        let mut i: usize = 0;
        while i < self.ops.len()
            invariant
                i <= self.ops@.len(),
                text@ == text_of(self@.take(i as int)),
            decreases self.ops@.len() - i,
        {
            if let FormatOp::Char(c) = &self.ops[i] {
                text.push(*c);
            }
            proof {
                assert(self@.take(i + 1).drop_last() =~= self@.take(i as int));
                assert(self@.take(i + 1).last() == self@[i as int]);
            }
            i += 1;
        }
        proof {
            assert(self@.take(i as int) =~= self@);
        }
        text
    }

    /// Whether no character is recorded.
    pub fn is_blank(&self) -> (blank: bool)
        ensures
            blank == (text_of(self@).len() == 0),
    {
        let text = self.text();
        text.as_str().is_empty()
    }
}

}
