//! Cross-thread resource loading: the submission side of the job queue. A
//! submission validates its payload, draws a fresh monotonically increasing
//! token and appends a request to the pending FIFO; the embedding
//! application pumps the FIFO into its worker-thread channel in order and
//! sends each finished job back for the orchestrator to drain.

use vstd::prelude::*;

verus! {

/// Opaque, monotonically increasing 64-bit identifier issued per
/// submission, never reused; it correlates a submitted request with its
/// eventual result and implies nothing about completion order.
#[derive(PartialEq, Eq, Structural, Debug, Clone, Copy)]
pub struct JobToken(u64);

impl JobToken {
    /// The numeric identity of the token.
    pub closed spec fn spec_id(&self) -> u64 {
        self.0
    }

    /// Tokens order by their issuance: later submissions get larger ids.
    pub fn id(&self) -> (id: u64)
        ensures
            id == self.spec_id(),
    {
        self.0
    }
}

/// A queued load request, handed to the worker in submission order.
pub enum JobRequest<P> {
    /// Terminal: the worker sends `FinishedJob::Quit` and exits its loop.
    Quit,
    /// Read and decode the file at `path`, apply `processors`, upload.
    LoadTextureFromFile { token: JobToken, path: String, processors: Vec<P> },
    /// Validate the raw buffer, apply `processors`, upload.
    LoadTextureFromRgba {
        token: JobToken,
        rgba: Vec<u8>,
        width: u32,
        height: u32,
        processors: Vec<P>,
    },
}

/// The token a request carries; a shutdown request carries none.
pub open spec fn request_token<P>(request: JobRequest<P>) -> Option<JobToken> {
    match request {
        JobRequest::Quit => None,
        JobRequest::LoadTextureFromFile { token, .. } => Some(token),
        JobRequest::LoadTextureFromRgba { token, .. } => Some(token),
    }
}

/// What the worker sends back for one request: the loaded texture's extent
/// under the request's token, or the terminal quit acknowledgement. The GPU
/// handles travel beside this record in the embedding application.
pub enum FinishedJob {
    TextureLoaded { token: JobToken, width: u32, height: u32 },
    Quit,
}

/// The submission handle: a token counter and the FIFO of requests not yet
/// handed to the worker. Single producer: the orchestrator thread owns it.
pub struct JobQueue<P> {
    next_token: u64,
    pending: Vec<JobRequest<P>>,
    quit_requested: bool,
}

impl<P> JobQueue<P> {
    /// The id the next submission will be issued.
    pub closed spec fn spec_next_token(&self) -> u64 {
        self.next_token
    }

    /// The submitted requests the application has not yet handed on, in
    /// submission order.
    pub closed spec fn spec_pending(&self) -> Seq<JobRequest<P>> {
        self.pending@
    }

    /// Whether shutdown was requested; later submissions are dropped.
    pub closed spec fn spec_quit_requested(&self) -> bool {
        self.quit_requested
    }

    /// Every pending token was issued by this queue (it is below the
    /// counter), and pending tokens appear in strictly increasing order.
    pub open spec fn wf(&self) -> bool {
        &&& forall|i: int|
            0 <= i < self.spec_pending().len() && request_token(
                #[trigger] self.spec_pending()[i],
            ) is Some ==> request_token(self.spec_pending()[i])->Some_0.spec_id()
                < self.spec_next_token()
        &&& forall|i: int, j: int|
            0 <= i < j < self.spec_pending().len() && request_token(
                #[trigger] self.spec_pending()[i],
            ) is Some && request_token(#[trigger] self.spec_pending()[j]) is Some
                ==> request_token(self.spec_pending()[i])->Some_0.spec_id() < request_token(
                self.spec_pending()[j],
            )->Some_0.spec_id()
    }

    /// A fresh queue: no token issued, nothing pending.
    pub fn new() -> (q: JobQueue<P>)
        ensures
            q.wf(),
            q.spec_next_token() == 0,
            q.spec_pending() == Seq::<JobRequest<P>>::empty(),
            !q.spec_quit_requested(),
    {
        JobQueue { next_token: 0, pending: Vec::new(), quit_requested: false }
    }

    /// Draw the next token, advancing the counter.
    fn generate_token(&mut self) -> (token: JobToken)
        requires
            old(self).spec_next_token() < u64::MAX,
        ensures
            token.spec_id() == old(self).spec_next_token(),
            final(self).spec_next_token() == old(self).spec_next_token() + 1,
            final(self).spec_pending() == old(self).spec_pending(),
            final(self).spec_quit_requested() == old(self).spec_quit_requested(),
    {
        let token = JobToken(self.next_token);
        self.next_token = self.next_token + 1;
        token
    }

    /// Append a request to the pending FIFO, unless shutdown was already
    /// requested, in which case the request is dropped.
    fn send(&mut self, request: JobRequest<P>)
        ensures
            final(self).spec_pending() == if old(self).spec_quit_requested() {
                old(self).spec_pending()
            } else {
                old(self).spec_pending().push(request)
            },
            final(self).spec_next_token() == old(self).spec_next_token(),
            final(self).spec_quit_requested() == old(self).spec_quit_requested(),
    {
        if !self.quit_requested {
            self.pending.push(request);
        }
    }

    /// Submit an asynchronous load of the image file at `path`, returning
    /// at once with the fresh token that the eventual result will carry.
    pub fn load_texture_from_file(&mut self, path: String, processors: Vec<P>) -> (token:
        JobToken)
        requires
            old(self).wf(),
            old(self).spec_next_token() < u64::MAX,
        ensures
            final(self).wf(),
            token.spec_id() == old(self).spec_next_token(),
            final(self).spec_next_token() == old(self).spec_next_token() + 1,
            final(self).spec_quit_requested() == old(self).spec_quit_requested(),
            final(self).spec_pending() == if old(self).spec_quit_requested() {
                old(self).spec_pending()
            } else {
                old(self).spec_pending().push(
                    (JobRequest::LoadTextureFromFile { token, path, processors }),
                )
            },
    {
        let token = self.generate_token();
        self.send(JobRequest::LoadTextureFromFile { token, path, processors });
        proof {
            if !old(self).spec_quit_requested() {
                assert(self.spec_pending().drop_last() =~= old(self).spec_pending());
            }
            lemma_push_keeps_wf(old(self), self);
        }
        token
    }

    /// Submit an asynchronous upload of a raw RGBA buffer, which must hold
    /// exactly `width * height` four-byte pixels, returning at once with
    /// the fresh token that the eventual result will carry.
    pub fn load_texture_from_rgba(
        &mut self,
        rgba: Vec<u8>,
        width: u32,
        height: u32,
        processors: Vec<P>,
    ) -> (token: JobToken)
        requires
            old(self).wf(),
            old(self).spec_next_token() < u64::MAX,
            rgba@.len() == width * height * 4,
        ensures
            final(self).wf(),
            token.spec_id() == old(self).spec_next_token(),
            final(self).spec_next_token() == old(self).spec_next_token() + 1,
            final(self).spec_quit_requested() == old(self).spec_quit_requested(),
            final(self).spec_pending() == if old(self).spec_quit_requested() {
                old(self).spec_pending()
            } else {
                old(self).spec_pending().push(
                    (JobRequest::LoadTextureFromRgba { token, rgba, width, height, processors }),
                )
            },
    {
        let token = self.generate_token();
        self.send(JobRequest::LoadTextureFromRgba { token, rgba, width, height, processors });
        proof {
            if !old(self).spec_quit_requested() {
                assert(self.spec_pending().drop_last() =~= old(self).spec_pending());
            }
            lemma_push_keeps_wf(old(self), self);
        }
        token
    }

    /// Submit a raw RGBA buffer after checking its length against the
    /// extent: a mismatched buffer is rejected before any token is drawn or
    /// any work dispatched.
    pub fn try_load_texture_from_rgba(
        &mut self,
        rgba: Vec<u8>,
        width: u32,
        height: u32,
        processors: Vec<P>,
    ) -> (result: Option<JobToken>)
        requires
            old(self).wf(),
            old(self).spec_next_token() < u64::MAX,
        ensures
            final(self).wf(),
            result is Some <==> rgba@.len() == width * height * 4,
            result matches Some(token) ==> token.spec_id() == old(self).spec_next_token()
                && final(self).spec_next_token() == old(self).spec_next_token() + 1
                && final(self).spec_quit_requested() == old(self).spec_quit_requested()
                && final(self).spec_pending() == (if old(self).spec_quit_requested() {
                old(self).spec_pending()
            } else {
                old(self).spec_pending().push(
                    (JobRequest::LoadTextureFromRgba { token, rgba, width, height, processors }),
                )
            }),
            result is None ==> *final(self) == *old(self),
    {
        proof {
            assert((width as int) * (height as int) <= (u32::MAX as int) * (u32::MAX as int))
                by (nonlinear_arith)
                requires
                    width <= u32::MAX,
                    height <= u32::MAX,
            ;
        }
        let wh = (width as u64) * (height as u64);
        let expected = (wh as u128) * 4;
        if expected == rgba.len() as u128 {
            proof {
                assert(rgba@.len() == width * height * 4);
            }
            Some(self.load_texture_from_rgba(rgba, width, height, processors))
        } else {
            None
        }
    }

    /// Request shutdown: enqueue the terminal request (once) and refuse
    /// later submissions. The worker answers with `FinishedJob::Quit` and
    /// exits; the orchestrator joins it upon draining that result.
    pub fn quit(&mut self)
        ensures
            old(self).wf() ==> final(self).wf(),
            final(self).spec_quit_requested(),
            final(self).spec_next_token() == old(self).spec_next_token(),
            final(self).spec_pending() == if old(self).spec_quit_requested() {
                old(self).spec_pending()
            } else {
                old(self).spec_pending().push(JobRequest::Quit)
            },
    {
        self.send(JobRequest::Quit);
        self.quit_requested = true;
        proof {
            if old(self).wf() && !old(self).spec_quit_requested() {
                let old_p = old(self).spec_pending();
                let new_p = self.spec_pending();
                assert(new_p == old_p.push(JobRequest::Quit));
                assert forall|i: int|
                    0 <= i < new_p.len() && request_token(#[trigger] new_p[i]) is Some implies
                request_token(new_p[i])->Some_0.spec_id() < self.spec_next_token() by {
                    assert(i < old_p.len());
                    assert(new_p[i] == old_p[i]);
                }
                assert forall|i: int, j: int|
                    0 <= i < j < new_p.len() && request_token(#[trigger] new_p[i]) is Some
                    && request_token(#[trigger] new_p[j]) is Some implies request_token(
                    new_p[i],
                )->Some_0.spec_id() < request_token(new_p[j])->Some_0.spec_id() by {
                    assert(j < old_p.len());
                    assert(new_p[i] == old_p[i] && new_p[j] == old_p[j]);
                }
            }
        }
    }

    /// Hand out the oldest pending request, if any: the FIFO's front. The
    /// embedding application forwards it to the worker thread, so requests
    /// reach the worker in submission order.
    pub fn take_next(&mut self) -> (front: Option<JobRequest<P>>)
        requires
            old(self).wf(),
        ensures
            final(self).wf(),
            final(self).spec_next_token() == old(self).spec_next_token(),
            final(self).spec_quit_requested() == old(self).spec_quit_requested(),
            old(self).spec_pending().len() == 0 ==> front is None && *final(self) == *old(self),
            old(self).spec_pending().len() > 0 ==> front == Some(old(self).spec_pending()[0])
                && final(self).spec_pending() == old(self).spec_pending().drop_first(),
    {
        if self.pending.len() > 0 {
            let request = self.pending.remove(0);
            proof {
                assert(self.spec_pending() =~= old(self).spec_pending().drop_first());
                let new_p = self.spec_pending();
                let old_p = old(self).spec_pending();
                assert forall|i: int|
                    0 <= i < new_p.len() implies new_p[i] == old_p[i + 1] by {}
            }
            Some(request)
        } else {
            None
        }
    }
}

/// Appending a request with the counter's fresh token, then advancing the
/// counter, keeps the queue well-formed.
proof fn lemma_push_keeps_wf<P>(before: &JobQueue<P>, after: &JobQueue<P>)
    requires
        before.wf(),
        before.spec_next_token() < u64::MAX,
        after.spec_next_token() == before.spec_next_token() + 1,
        after.spec_pending() == before.spec_pending() || (after.spec_pending().len() > 0
            && after.spec_pending().drop_last() == before.spec_pending() && request_token(
            after.spec_pending().last(),
        ) is Some && request_token(after.spec_pending().last())->Some_0.spec_id()
            == before.spec_next_token()),
    ensures
        after.wf(),
{
    let old_p = before.spec_pending();
    let new_p = after.spec_pending();
    if new_p != old_p {
        assert forall|i: int| 0 <= i < new_p.len() - 1 implies new_p[i] == old_p[i] by {
            assert(new_p.drop_last()[i] == old_p[i]);
        }
    } else {
        assert forall|i: int|
            0 <= i < new_p.len() && request_token(#[trigger] new_p[i]) is Some implies
        request_token(new_p[i])->Some_0.spec_id() < after.spec_next_token() by {
            assert(new_p[i] == old_p[i]);
        }
    }
}

/// Token uniqueness and order: of any two load requests pending on a
/// well-formed queue, the earlier-submitted one carries the strictly
/// smaller token; no token is ever repeated, and every pending token is
/// strictly below the token the next submission will be issued.
pub proof fn lemma_tokens_strictly_increase<P>(q: &JobQueue<P>, i: int, j: int)
    requires
        q.wf(),
        0 <= i < j < q.spec_pending().len(),
        request_token(q.spec_pending()[i]) is Some,
        request_token(q.spec_pending()[j]) is Some,
    ensures
        request_token(q.spec_pending()[i])->Some_0.spec_id() < request_token(
            q.spec_pending()[j],
        )->Some_0.spec_id(),
        request_token(q.spec_pending()[j])->Some_0.spec_id() < q.spec_next_token(),
{
}

} // verus!
