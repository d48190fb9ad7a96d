//! The reply contract: exactly one of text, a single file, or an image
//! batch per call; anything else is rejected and nothing is sent.  Image
//! batches are chunked, ten images to a batch.

use vstd::prelude::*;

verus! {

/// Content of a handled message, as on-disk paths.
#[derive(Debug)]
pub enum MessageContent {
    File(String),
    Images(Vec<String>),
}

/// Terminal result of handling one message.
#[derive(Debug)]
pub struct MessageHandled {
    pub content: Option<MessageContent>,
}

/// What one reply call does: send one thing, or send nothing at all.
#[derive(Debug)]
pub enum ReplyAction {
    SendText(String),
    SendVideo(String),
    SendImageBatches(Vec<Vec<String>>),
    Rejected,
}

/// `s` cut into consecutive chunks of `k` elements, the last chunk shorter
/// when `k` does not divide the length.
pub open spec fn chunks_of<T>(s: Seq<T>, k: nat) -> Seq<Seq<T>>
    decreases s.len(),
{
    if s.len() == 0 || k == 0 {
        Seq::empty()
    } else if s.len() <= k {
        seq![s]
    } else {
        seq![s.take(k as int)] + chunks_of(s.skip(k as int), k)
    }
}

/// Cuts a list of image paths into batches of at most `k`.
pub fn chunk_images(images: &Vec<String>, k: usize) -> (r: Vec<Vec<String>>)
    requires
        k > 0,
    ensures
        r.deep_view() == chunks_of(images.deep_view(), k as nat),
{
    let mut out: Vec<Vec<String>> = Vec::new();
    let len = images.len();
    let mut i: usize = 0;
    proof {
        assert(images.deep_view().skip(0) =~= images.deep_view());
    }
    while i < len
        invariant
            i <= len,
            len == images@.len(),
            k > 0,
            chunks_of(images.deep_view(), k as nat) =~= out.deep_view() + chunks_of(
                images.deep_view().skip(i as int),
                k as nat,
            ),
        decreases len - i,
    {
        let m: usize = if len - i < k {
            len - i
        } else {
            k
        };
        let mut chunk: Vec<String> = Vec::new();
        let mut j: usize = 0;
        while j < m
            invariant
                j <= m,
                i + m <= len,
                len == images@.len(),
                chunk@.len() == j,
                forall|l: int| 0 <= l < j ==> (#[trigger] chunk@[l])@ == images@[i + l]@,
            decreases m - j,
        {
            chunk.push(images[i + j].clone());
            j += 1;
        }
        proof {
            assert(chunk.deep_view() =~= images.deep_view().subrange(i as int, i + m));
            let rest = images.deep_view().skip(i as int);
            if rest.len() <= k as nat {
                assert(chunk.deep_view() =~= rest);
                assert(chunks_of(rest, k as nat) =~= seq![rest]);
            } else {
                assert(chunk.deep_view() =~= rest.take(k as int));
                assert(rest.skip(k as int) =~= images.deep_view().skip(i + m));
            }
        }
        out.push(chunk);
        i += m;
        proof {
            assert(chunks_of(images.deep_view(), k as nat) =~= out.deep_view() + chunks_of(
                images.deep_view().skip(i as int),
                k as nat,
            ));
        }
    }
    proof {
        assert(images.deep_view().skip(len as int) =~= Seq::<Seq<char>>::empty());
        assert(chunks_of(images.deep_view(), k as nat) =~= out.deep_view());
    }
    out
}

/// Decides a reply.  Exactly one of `text`, `blob`, `images` must be set;
/// every other combination — all three, none, or any two — is rejected, and
/// a rejected reply sends nothing.  An accepted image reply is chunked ten
/// images to a batch.
pub fn plan_reply(
    text: Option<String>,
    blob: Option<String>,
    images: Option<Vec<String>>,
) -> (r: ReplyAction)
    ensures
        match r {
            ReplyAction::SendText(t) => text matches Some(t0) && t == t0 && blob is None
                && images is None,
            ReplyAction::SendVideo(b) => text is None && (blob matches Some(b0) && b == b0)
                && images is None,
            ReplyAction::SendImageBatches(batches) => text is None && blob is None && (
            images matches Some(imgs) && batches.deep_view() == chunks_of(
                imgs.deep_view(),
                crate::IMAGE_BATCH_SIZE as nat,
            )),
            ReplyAction::Rejected => !{
                ||| text is Some && blob is None && images is None
                ||| text is None && blob is Some && images is None
                ||| text is None && blob is None && images is Some
            },
        },
{
    match (text, blob, images) {
        (Some(t), None, None) => ReplyAction::SendText(t),
        (None, Some(b), None) => ReplyAction::SendVideo(b),
        (None, None, Some(imgs)) => {
            let batches = chunk_images(&imgs, crate::IMAGE_BATCH_SIZE);
            ReplyAction::SendImageBatches(batches)
        },
        _ => ReplyAction::Rejected,
    }
}

} // verus!
