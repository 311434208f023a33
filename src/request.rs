use vstd::prelude::*;
use crate::command::{Operation, tokens, operations_of, tokenize, recognize};

verus! {

/// Whether `infer::is_image` accepts these bytes as an image format it knows.
pub uninterp spec fn has_image_signature(data: Seq<u8>) -> bool;

/// Relies on `infer::is_image`: whether the bytes start with the signature of a
/// known image format; the answer depends on the bytes alone.
#[verifier::external_body]
fn sniff_image(data: &[u8]) -> (r: bool)
    ensures
        r == has_image_signature(data@),
{
    infer::is_image(data)
}

/// Why a message gets a hint instead of a conversion.
#[derive(Clone, Copy, Debug, PartialEq, Eq, Structural)]
pub enum UsageError {
    /// The message carries no attachment.
    NoAttachment,
    /// The message names nothing beyond the mention.
    NoParameters,
}

impl UsageError {
    /// The hint sent back to the user.
    pub fn hint(&self) -> (r: &'static str)
        ensures
            *self == UsageError::NoAttachment ==> r@ == "what you want"@,
            *self == UsageError::NoParameters ==> r@ == "what?"@,
    {
        match self {
            UsageError::NoAttachment => "what you want",
            UsageError::NoParameters => "what?",
        }
    }
}

/// What to do with an incoming message.
#[derive(Debug, PartialEq, Eq)]
pub enum Triage {
    /// Not addressed to the service: no reply at all.
    Ignore,
    /// Reply with a usage hint and do nothing else.
    Usage(UsageError),
    /// Convert every attachment with these operations, in order.
    Convert(Vec<Operation>),
}

/// Decides how to answer a message: whether it mentions the service, how many
/// attachments it has, and its text.
pub fn triage(mentioned: bool, attachments: usize, text: &str) -> (r: Triage)
    ensures
        !mentioned ==> r == Triage::Ignore,
        mentioned && attachments == 0 ==> r == Triage::Usage(UsageError::NoAttachment),
        mentioned && attachments > 0 && tokens(text@).len() <= 1 ==> r == Triage::Usage(
            UsageError::NoParameters,
        ),
        mentioned && attachments > 0 && tokens(text@).len() > 1 ==> (r matches Triage::Convert(ops)
            && ops@ == operations_of(text@)),
{
    if !mentioned {
        return Triage::Ignore;
    }
    if attachments == 0 {
        return Triage::Usage(UsageError::NoAttachment);
    }
    let ts = tokenize(text);
    proof {
        assert(ts@.map_values(|t: String| t@).len() == ts@.len());
    }
    if ts.len() <= 1 {
        return Triage::Usage(UsageError::NoParameters);
    }
    Triage::Convert(recognize(&ts))
}

/// The attachment's bytes are not in an image format.
#[derive(Clone, Copy, Debug, PartialEq, Eq, Structural)]
pub struct NotAnImage;

impl NotAnImage {
    /// The reply sent to the user.
    pub fn message(&self) -> (r: &'static str)
        ensures
            r@ == "not an image"@,
    {
        "not an image"
    }
}

/// Checks fetched bytes before they are decoded.
pub fn screen(data: &[u8]) -> (r: Result<(), NotAnImage>)
    ensures
        r is Ok <==> has_image_signature(data@),
{
    if sniff_image(data) {
        Ok(())
    } else {
        Err(NotAnImage)
    }
}

/// What came of one attachment.
#[derive(Clone, Copy, Debug, PartialEq, Eq, Structural)]
pub enum Outcome {
    /// Converted; the encoded image is ready to send.
    Converted,
    /// The fetched bytes are not an image.
    NotImage,
    /// Fetching the bytes failed.
    FetchFailed,
    /// Decoding, an operation or encoding failed.
    ConvertFailed,
}

/// A reply to send back.
#[derive(Clone, Copy, Debug, PartialEq, Eq, Structural)]
pub enum Reply {
    /// The converted image of the attachment at this index.
    Image(usize),
    /// A note that the attachment at this index could not be converted.
    Failed(usize),
    /// The rejection of bytes that are not an image; the request ends.
    NotImage,
    /// The elapsed time of the whole request; the request ends.
    Elapsed,
}

/// Progress through the attachments of one message, one at a time in order.
#[derive(Clone, Copy, Debug, PartialEq, Eq, Structural)]
pub struct Session {
    pub total: usize,
    pub next: usize,
    pub stopped: bool,
}

impl Session {
    /// The position stays within the attachments, and the session stops after the last.
    pub open spec fn wf(&self) -> bool {
        self.next <= self.total && (self.next == self.total ==> self.stopped)
    }

    /// The replies that end the current attachment with `outcome`.
    pub open spec fn replies_of(&self, outcome: Outcome) -> Seq<Reply> {
        let i = self.next;
        match outcome {
            Outcome::NotImage => seq![Reply::NotImage],
            Outcome::Converted => if i + 1 == self.total {
                seq![Reply::Image(i), Reply::Elapsed]
            } else {
                seq![Reply::Image(i)]
            },
            _ => if i + 1 == self.total {
                seq![Reply::Failed(i), Reply::Elapsed]
            } else {
                seq![Reply::Failed(i)]
            },
        }
    }

    /// Starts on a message with `total` attachments; with none there is nothing to do.
    pub fn new(total: usize) -> (r: Session)
        ensures
            r.wf(),
            r.total == total,
            r.next == 0,
            r.stopped == (total == 0),
    {
        Session { total, next: 0, stopped: total == 0 }
    }

    /// The index of the attachment to work on, if the request goes on.
    pub fn current(&self) -> (r: Option<usize>)
        requires
            self.wf(),
        ensures
            r == (if self.stopped { None } else { Some(self.next) }),
            r matches Some(i) ==> i < self.total,
    {
        if self.stopped {
            None
        } else {
            Some(self.next)
        }
    }

    /// Records what came of the current attachment and returns the replies to send.
    /// Bytes that are not an image end the whole request; any other failure is
    /// reported for that attachment alone and the next one follows.
    pub fn record(&mut self, outcome: Outcome) -> (r: Vec<Reply>)
        requires
            old(self).wf(),
            !old(self).stopped,
        ensures
            final(self).wf(),
            r@ == old(self).replies_of(outcome),
            final(self).total == old(self).total,
            outcome == Outcome::NotImage ==> final(self).stopped && final(self).next == old(self).next,
            outcome != Outcome::NotImage ==> final(self).next == old(self).next + 1
                && final(self).stopped == (old(self).next + 1 == old(self).total),
    {
        let i = self.next;
        match outcome {
            Outcome::NotImage => {
                self.stopped = true;
                vec![Reply::NotImage]
            },
            _ => {
                let first = if outcome == Outcome::Converted {
                    Reply::Image(i)
                } else {
                    Reply::Failed(i)
                };
                self.next = i + 1;
                if self.next == self.total {
                    self.stopped = true;
                    vec![first, Reply::Elapsed]
                } else {
                    vec![first]
                }
            },
        }
    }
}

} // verus!
