//! Comments on threads: their defaults, the checks on their author and
//! link, and who hears of a new one.
use std::collections::HashSet;
use crate::comment_thread::{CommentThread, ThreadObjectType, parse_object_type};
use crate::contribution_request::{clean_html, sanitized_html};
use crate::errors::NodecosmosError;
use crate::ids::{opt_set, set_to_vec, add_all};
use crate::text::{text_from, text_concat, text_starts_with};
use vstd::prelude::*;

verus! {

broadcast use vstd::std_specs::hash::group_hash_axioms;

/// The lowercase hexadecimal digit of a value below sixteen.
pub open spec fn hex_digit(d: nat) -> char {
    if d < 10 {
        (48 + d) as char
    } else {
        (87 + d) as char
    }
}

/// The last `n` hexadecimal digits of `x`, most significant first.
pub open spec fn hex_digits(x: nat, n: nat) -> Seq<char>
    decreases n,
{
    if n == 0 {
        Seq::empty()
    } else {
        hex_digits(x / 16, (n - 1) as nat).push(hex_digit(x % 16))
    }
}

/// The hyphenated text of a UUID: its 32 lowercase hexadecimal digits,
/// most significant first, in groups of 8, 4, 4, 4 and 12.
pub open spec fn hyphenated(x: u128) -> Seq<char> {
    let h = hex_digits(x as nat, 32);
    h.subrange(0, 8) + "-"@ + h.subrange(8, 12) + "-"@ + h.subrange(12, 16) + "-"@ + h.subrange(16, 20) + "-"@
        + h.subrange(20, 32)
}

/// The text of the UUID with this 128-bit value (`uuid::Uuid::from_u128`,
/// shown with its `Display`): as the crate documents, the value read
/// big-endian, in the hyphenated lowercase form.
#[verifier::external_body]
pub(crate) fn uuid_text(id: u128) -> (s: String)
    ensures
        s@ == hyphenated(id),
{
    uuid::Uuid::from_u128(id).to_string()
}

/// A comment on a thread.
pub struct Comment {
    pub object_id: u128,
    pub branch_id: u128,
    pub thread_id: u128,
    pub id: u128,
    pub content: String,
    pub author_id: u128,
    pub url: String,
    pub thread: Option<CommentThread>,
}

/// The link of a comment on a plain thread.
pub open spec fn thread_url(client_url: Seq<char>, branch_id: u128, object_id: u128, thread_id: u128) -> Seq<char> {
    client_url + "/nodes/"@ + hyphenated(branch_id) + "/"@ + hyphenated(object_id) + "/threads/"@ + hyphenated(thread_id)
}

/// Who hears of a new comment: the thread's participants, and, on a
/// contribution request, its owner and editors.
pub open spec fn spec_comment_receivers(
    participants: Option<HashSet<u128>>,
    request: Option<(u128, Option<HashSet<u128>>)>,
) -> Set<u128> {
    match request {
        Some((owner, editors)) => opt_set(participants).insert(owner) + opt_set(editors),
        None => opt_set(participants),
    }
}

impl Comment {
    /// Attaches the comment's thread.
    pub fn assign_thread(&mut self, thread: CommentThread)
        ensures
            final(self).thread == Some(thread),
            final(self).id == old(self).id,
            final(self).url == old(self).url,
    {
        self.thread = Some(thread);
    }

    /// A comment must be written by the current user.
    pub fn validate_author(&self, current_user_id: u128) -> (r: Result<(), NodecosmosError>)
        ensures
            r is Err <==> self.author_id != current_user_id,
            r matches Err(e) ==> (e matches NodecosmosError::BadRequest(m) && m@ == "Invalid author"@),
    {
        if self.author_id != current_user_id {
            return Err(NodecosmosError::BadRequest(text_from("Invalid author")));
        }
        Ok(())
    }

    /// A comment's link must lead into the application.
    pub fn validate_url(&self, client_url: &str) -> (r: Result<(), NodecosmosError>)
        ensures
            r is Err <==> !(client_url@.len() <= self.url@.len() && self.url@.subrange(0, client_url@.len() as int)
                == client_url@),
            r matches Err(e) ==> (e matches NodecosmosError::BadRequest(m) && m@ == "Invalid URL"@),
    {
        if !text_starts_with(self.url.as_str(), client_url) {
            return Err(NodecosmosError::BadRequest(text_from("Invalid URL")));
        }
        Ok(())
    }

    /// Gives a new comment its place and author: the thread's object, branch
    /// and id, the id `fresh`, the current user as author, and on a plain
    /// thread a link to the thread; its content is cleaned down to a safe
    /// subset of html. A comment without its thread is an error, and so is a
    /// thread whose object type does not read.
    pub fn set_default_values(&mut self, client_url: &str, fresh: u128, current_user_id: u128) -> (r: Result<
        (),
        NodecosmosError,
    >)
        ensures
            old(self).thread is None ==> (r matches Err(e) && (e matches NodecosmosError::NotFound(m)
                && m@ == "Thread not initialized"@)),
            r is Err ==> *final(self) == *old(self),
            old(self).thread matches Some(t) ==> match parse_object_type(t.object_type@) {
                None => r is Err,
                Some(kind) => {
                    &&& r is Ok
                    &&& final(self).object_id == t.object_id
                    &&& final(self).branch_id == t.branch_id
                    &&& final(self).thread_id == t.id
                    &&& final(self).content@ == sanitized_html(old(self).content@)
                    &&& final(self).id == fresh
                    &&& final(self).author_id == current_user_id
                    &&& final(self).url@ == if kind == ThreadObjectType::Thread {
                        thread_url(client_url@, t.branch_id, t.object_id, t.id)
                    } else {
                        old(self).url@
                    }
                },
            },
    {
        let (branch_id, object_id, thread_id, kind) = match &self.thread {
            Some(thread) => {
                let kind = thread.thread_object_type()?;
                (thread.branch_id, thread.object_id, thread.id, kind)
            },
            None => {
                return Err(NodecosmosError::NotFound(text_from("Thread not initialized")));
            },
        };
        if kind == ThreadObjectType::Thread {
            let b = uuid_text(branch_id);
            let o = uuid_text(object_id);
            let t = uuid_text(thread_id);
            let url = text_concat(text_from(client_url), "/nodes/");
            let url = text_concat(url, b.as_str());
            let url = text_concat(url, "/");
            let url = text_concat(url, o.as_str());
            let url = text_concat(url, "/threads/");
            let url = text_concat(url, t.as_str());
            self.url = url;
        }
        self.object_id = object_id;
        self.branch_id = branch_id;
        self.thread_id = thread_id;
        self.id = fresh;
        let content = clean_html(self.content.as_str());
        self.content = content;
        self.author_id = current_user_id;
        Ok(())
    }

    /// Who hears of a new comment (see `spec_comment_receivers`); `request`
    /// holds the owner and editors of the contribution request the thread is
    /// on, if it is on one.
    pub fn notification_receivers(
        thread: &CommentThread,
        request: &Option<(u128, Option<HashSet<u128>>)>,
    ) -> (r: HashSet<u128>)
        ensures
            r@ == spec_comment_receivers(thread.participant_ids, *request),
    {
        let mut r: HashSet<u128> = HashSet::new();
        if let Some(p) = &thread.participant_ids {
            let v = set_to_vec(p);
            add_all(&mut r, &v);
        }
        if let Some((owner, editors)) = request {
            r.insert(*owner);
            if let Some(e) = editors {
                let v = set_to_vec(e);
                add_all(&mut r, &v);
            }
        }
        proof {
            assert(r@ =~= spec_comment_receivers(thread.participant_ids, *request));
        }
        r
    }
}

} // verus!
