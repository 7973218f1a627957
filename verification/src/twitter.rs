//! Comments and reactions on tweets: the rules by which a comment is added
//! or removed, and what removing a reaction does to a tweet's counters.
//!
//! A comment stands at an address derived from its author, the digest of its
//! content and the tweet it answers, so that the same author cannot post the
//! same content twice under one tweet.

use crate::address::{derive_address, derived, lemma_seeds_plain, Address};
use vstd::prelude::*;
use vstd::utf8::encode_utf8;

verus! {

/// The most bytes a comment's content may have.
pub const COMMENT_LENGTH: usize = 500;

/// Why an operation on a comment was rejected.
#[derive(Clone, Copy, Debug, PartialEq, Eq, Structural)]
pub enum TwitterError {
    /// The content has more than `COMMENT_LENGTH` bytes.
    CommentTooLong,
    /// The address given for the comment is not the derived one.
    ConstraintSeeds,
}

/// A reaction to a tweet.
#[derive(Clone, Copy, Debug, PartialEq, Eq, Structural)]
pub enum ReactionType {
    Like,
    Dislike,
}

/// A tweet, as far as comments and reactions read it: its address and its
/// two counters.
#[derive(Clone, Copy, Debug)]
pub struct Tweet {
    pub key: Address,
    pub likes: u64,
    pub dislikes: u64,
}

/// The record of a reaction.
#[derive(Clone, Copy, Debug)]
pub struct Reaction {
    pub reaction_author: Address,
    pub parent_tweet: Address,
    pub reaction: ReactionType,
    pub bump: u8,
}

/// The record of a comment.
#[derive(Clone, Debug, PartialEq, Eq)]
pub struct Comment {
    pub comment_author: Address,
    pub parent_tweet: Address,
    pub content: String,
    pub bump: u8,
}

/// The accounts of adding a comment: the program under which comments are
/// derived, the author, the tweet, and the address given for the comment.
#[derive(Clone, Copy, Debug)]
pub struct AddCommentContext {
    pub program_id: Address,
    pub comment_author: Address,
    pub tweet: Address,
    pub comment: Address,
}

/// The accounts of removing a comment: the program, the author, and the
/// comment with the address it stands at.
#[derive(Clone, Debug)]
pub struct RemoveCommentContext {
    pub program_id: Address,
    pub comment_author: Address,
    pub comment_key: Address,
    pub comment: Comment,
}

/// The accounts of removing a reaction: the author, the reaction and the
/// tweet it was given to.
#[derive(Clone, Copy, Debug)]
pub struct RemoveReactionContext {
    pub reaction_author: Address,
    pub tweet_reaction: Reaction,
    pub tweet: Tweet,
}

/// The SHA-256 digest of a sequence of bytes, as
/// `solana_program::hash::hash` computes it.
pub uninterp spec fn sha256(data: Seq<u8>) -> Seq<u8>;

/// Calls `solana_program::hash::hash` on the bytes and takes the digest's 32
/// bytes. The contract claims only that they are the ones named by
/// [`sha256`] for the same input: the digest is a fixed function of the data.
#[verifier::external_body]
pub(crate) fn hash_bytes(data: &[u8]) -> (digest: [u8; 32])
    ensures
        digest@ == sha256(data@),
{
    anchor_lang::solana_program::hash::hash(data).to_bytes()
}

/// The first seed of every comment's address: the ASCII text "COMMENT_SEED".
pub open spec fn comment_tag() -> Seq<u8> {
    seq![67u8, 79, 77, 77, 69, 78, 84, 95, 83, 69, 69, 68]
}

/// The seeds of the comment that `author` posts with `content` under `tweet`:
/// the text "COMMENT_SEED", the author's bytes, the digest of the content's
/// bytes, and the tweet's bytes.
pub open spec fn comment_seeds(author: Address, content: Seq<char>, tweet: Address) -> Seq<Seq<u8>> {
    seq![comment_tag(), author@, sha256(encode_utf8(content)), tweet@]
}

/// The address and tag of the comment that `author` posts with `content`
/// under `tweet`.
pub open spec fn comment_address_of(
    program_id: Address,
    author: Address,
    content: Seq<char>,
    tweet: Address,
) -> Option<(Address, u8)> {
    derived(comment_seeds(author, content, tweet), program_id)
}

/// The seeds of the comment that `author` posts with `content` under `tweet`:
/// what its address is derived from, and what signs for it together with the
/// tag.
pub fn comment_seed_bytes(author: &Address, content: &str, tweet: &Address) -> (seeds: Vec<Vec<u8>>)
    ensures
        seeds.deep_view() == comment_seeds(*author, content@, *tweet),
{
    let digest = hash_bytes(content.as_bytes());
    let mut seeds: Vec<Vec<u8>> = Vec::new();
    seeds.push(vec![67u8, 79, 77, 77, 69, 78, 84, 95, 83, 69, 69, 68]);
    seeds.push(author.to_seed());
    seeds.push(Address::new(digest).to_seed());
    seeds.push(tweet.to_seed());
    proof {
        lemma_seeds_plain(seeds);
    }
    seeds
}

/// Derives the address and tag of the comment that `author` posts with
/// `content` under `tweet`.
pub fn comment_address(program_id: &Address, author: &Address, content: &str, tweet: &Address) -> (found:
    Option<(Address, u8)>)
    ensures
        found == comment_address_of(*program_id, *author, content@, *tweet),
{
    let seeds = comment_seed_bytes(author, content, tweet);
    derive_address(&seeds, program_id)
}

/// What adding a comment comes to, given the derived address: the tag to
/// store, or the reason for which it is rejected. The length is looked at
/// first, then the address.
pub open spec fn add_comment_outcome(
    ctx: AddCommentContext,
    content: Seq<char>,
    found: Option<(Address, u8)>,
) -> Result<u8, TwitterError> {
    if encode_utf8(content).len() > COMMENT_LENGTH {
        Err(TwitterError::CommentTooLong)
    } else {
        match found {
            Some((address, bump)) => if address == ctx.comment {
                Ok(bump)
            } else {
                Err(TwitterError::ConstraintSeeds)
            },
            None => Err(TwitterError::ConstraintSeeds),
        }
    }
}

/// Whether `comment` is the record of `content` posted by the author of
/// `ctx` under its tweet, with the tag `bump`.
pub open spec fn is_comment_of(comment: Comment, ctx: AddCommentContext, content: Seq<char>, bump: u8) -> bool {
    &&& comment.comment_author == ctx.comment_author
    &&& comment.parent_tweet == ctx.tweet
    &&& comment.content@ == content
    &&& comment.bump == bump
}

/// Adds a comment, given the derived address: checks the content's length
/// and the address given, and returns the record to store there.
pub fn add_comment_with(
    ctx: &AddCommentContext,
    comment_content: String,
    found: Option<(Address, u8)>,
) -> (result: Result<Comment, TwitterError>)
    ensures
        match result {
            Ok(comment) => {
                &&& add_comment_outcome(*ctx, comment_content@, found) == Ok::<u8, TwitterError>(
                    comment.bump,
                )
                &&& is_comment_of(comment, *ctx, comment_content@, comment.bump)
            },
            Err(e) => add_comment_outcome(*ctx, comment_content@, found) == Err::<u8, TwitterError>(
                e,
            ),
        },
{
    if comment_content.as_str().as_bytes().len() > COMMENT_LENGTH {
        return Err(TwitterError::CommentTooLong);
    }
    match found {
        Some((address, bump)) => {
            if address == ctx.comment {
                Ok(
                    Comment {
                        comment_author: ctx.comment_author,
                        parent_tweet: ctx.tweet,
                        content: comment_content,
                        bump,
                    },
                )
            } else {
                Err(TwitterError::ConstraintSeeds)
            }
        },
        None => Err(TwitterError::ConstraintSeeds),
    }
}

/// Adds a comment: checks the content's length, derives the comment's
/// address from the author, the content and the tweet, checks the address
/// given against it, and returns the record to store there.
pub fn add_comment(ctx: &AddCommentContext, comment_content: String) -> (result: Result<
    Comment,
    TwitterError,
>)
    ensures
        match result {
            Ok(comment) => {
                &&& add_comment_outcome(
                    *ctx,
                    comment_content@,
                    comment_address_of(
                        ctx.program_id,
                        ctx.comment_author,
                        comment_content@,
                        ctx.tweet,
                    ),
                ) == Ok::<u8, TwitterError>(comment.bump)
                &&& is_comment_of(comment, *ctx, comment_content@, comment.bump)
            },
            Err(e) => add_comment_outcome(
                *ctx,
                comment_content@,
                comment_address_of(ctx.program_id, ctx.comment_author, comment_content@, ctx.tweet),
            ) == Err::<u8, TwitterError>(e),
        },
{
    if comment_content.as_str().as_bytes().len() > COMMENT_LENGTH {
        return Err(TwitterError::CommentTooLong);
    }
    let found = comment_address(
        &ctx.program_id,
        &ctx.comment_author,
        comment_content.as_str(),
        &ctx.tweet,
    );
    add_comment_with(ctx, comment_content, found)
}

/// What removing a comment comes to, given the derived address: nothing
/// where the comment stands at it, else the reason.
pub open spec fn remove_comment_outcome(ctx: RemoveCommentContext, found: Option<(Address, u8)>) -> Result<
    (),
    TwitterError,
> {
    match found {
        Some((address, _)) => if address == ctx.comment_key {
            Ok(())
        } else {
            Err(TwitterError::ConstraintSeeds)
        },
        None => Err(TwitterError::ConstraintSeeds),
    }
}

/// Decides on the removal of a comment, given the derived address: the
/// comment must stand at it.
pub fn remove_comment_with(ctx: &RemoveCommentContext, found: Option<(Address, u8)>) -> (result: Result<
    (),
    TwitterError,
>)
    ensures
        result == remove_comment_outcome(*ctx, found),
{
    match found {
        Some((address, _)) => {
            if address == ctx.comment_key {
                Ok(())
            } else {
                Err(TwitterError::ConstraintSeeds)
            }
        },
        None => Err(TwitterError::ConstraintSeeds),
    }
}

/// Decides on the removal of a comment: derives its address from the author,
/// the stored content and the stored tweet, and checks that the comment
/// stands at it. Closing the record is for the caller.
pub fn remove_comment(ctx: &RemoveCommentContext) -> (result: Result<(), TwitterError>)
    ensures
        result == remove_comment_outcome(
            *ctx,
            comment_address_of(
                ctx.program_id,
                ctx.comment_author,
                ctx.comment.content@,
                ctx.comment.parent_tweet,
            ),
        ),
{
    let found = comment_address(
        &ctx.program_id,
        &ctx.comment_author,
        ctx.comment.content.as_str(),
        &ctx.comment.parent_tweet,
    );
    remove_comment_with(ctx, found)
}

/// A counter after one reaction was taken back: one less, and never below
/// zero.
pub open spec fn one_less(count: u64) -> u64 {
    if count == 0 {
        0
    } else {
        (count - 1) as u64
    }
}

/// Removes a reaction: the tweet's counter for the kind of reaction goes
/// down by one and stops at zero; nothing else changes. Closing the record
/// of the reaction is for the caller.
pub fn remove_reaction(ctx: &mut RemoveReactionContext) -> (result: Result<(), TwitterError>)
    ensures
        result is Ok,
        *final(ctx) == (RemoveReactionContext {
            tweet: match old(ctx).tweet_reaction.reaction {
                ReactionType::Like => Tweet { likes: one_less(old(ctx).tweet.likes), ..old(ctx).tweet },
                ReactionType::Dislike => Tweet {
                    dislikes: one_less(old(ctx).tweet.dislikes),
                    ..old(ctx).tweet
                },
            },
            ..*old(ctx)
        }),
{
    match ctx.tweet_reaction.reaction {
        ReactionType::Like => {
            ctx.tweet.likes = ctx.tweet.likes.saturating_sub(1);
        },
        ReactionType::Dislike => {
            ctx.tweet.dislikes = ctx.tweet.dislikes.saturating_sub(1);
        },
    }
    Ok(())
}

} // verus!
