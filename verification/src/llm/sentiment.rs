//! Judging whether a message aligns with what the active persona likes or
//! dislikes, for the love meter. The model is asked (by the application) only
//! when the persona has likes or dislikes configured; its one-word reply is
//! read here.
use vstd::prelude::*;

use super::client::{is_plain_message, system_role, user_role, ChatMessage};
use crate::persona::Persona;
use crate::text::{
    chars_of, contains_chars, has_substring, push_all, push_str, string_from_chars, to_uppercase,
    trim_chars, trimmed, uppercase_of,
};

verus! {

/// Whether an incoming message aligned with what the active persona likes,
/// dislikes, or neither.
#[derive(Clone, Copy, Debug, PartialEq, Eq, Structural)]
pub enum Sentiment {
    Liked,
    Disliked,
    Neutral,
}

impl Sentiment {
    /// How much this turn moves the love meter.
    pub fn delta(self) -> (r: i32)
        ensures
            r == match self {
                Sentiment::Liked => 1i32,
                Sentiment::Disliked => -1i32,
                Sentiment::Neutral => 0i32,
            },
    {
        match self {
            Sentiment::Liked => 1,
            Sentiment::Disliked => -1,
            Sentiment::Neutral => 0,
        }
    }

    /// The sentiment's name for the front end.
    pub fn as_str(self) -> (r: &'static str)
        ensures
            r@ == match self {
                Sentiment::Liked => "liked"@,
                Sentiment::Disliked => "disliked"@,
                Sentiment::Neutral => "neutral"@,
            },
    {
        match self {
            Sentiment::Liked => "liked",
            Sentiment::Disliked => "disliked",
            Sentiment::Neutral => "neutral",
        }
    }
}

/// The instructions that ask the model to judge a message for a persona
/// called `name` with (trimmed) `likes` and `dislikes`.
pub open spec fn judge_prompt(name: Seq<char>, likes: Seq<char>, dislikes: Seq<char>) -> Seq<char> {
    "You are judging whether a single message aligns with what "@ + name
        + " likes or dislikes, for an affection meter in a chat app. "@ + (if likes.len() > 0 {
        name + " responds positively to: "@ + likes + ". "@
    } else {
        Seq::<char>::empty()
    }) + (if dislikes.len() > 0 {
        name + " responds negatively to: "@ + dislikes + ". "@
    } else {
        Seq::<char>::empty()
    })
        + "Read the user's message below and decide: does it align with what they like, what they dislike, or neither? Respond with exactly one word: LIKE, DISLIKE, or NEUTRAL \u{2014} nothing else."@
}

/// The judging instructions, whatever of likes and dislikes is configured,
/// open by naming the persona, state each configured side in turn, and end
/// with the instruction to answer with exactly one word: LIKE, DISLIKE or
/// NEUTRAL.
pub proof fn law_judge_prompt_shape(name: Seq<char>, likes: Seq<char>, dislikes: Seq<char>)
    ensures
        ({
            let s = judge_prompt(name, likes, dislikes);
            let opening = "You are judging whether a single message aligns with what "@ + name
                + " likes or dislikes, for an affection meter in a chat app. "@;
            let liked = name + " responds positively to: "@ + likes + ". "@;
            let disliked = name + " responds negatively to: "@ + dislikes + ". "@;
            let ending = "Read the user's message below and decide: does it align with what they like, what they dislike, or neither? Respond with exactly one word: LIKE, DISLIKE, or NEUTRAL \u{2014} nothing else."@;
            let lk: int = if likes.len() > 0 { liked.len() as int } else { 0 };
            let dk: int = if dislikes.len() > 0 { disliked.len() as int } else { 0 };
            let o: int = opening.len() as int;
            &&& s.len() == opening.len() + lk + dk + ending.len()
            &&& s.subrange(0, opening.len() as int) == opening
            &&& likes.len() > 0 ==> s.subrange(o, o + lk) == liked
            &&& dislikes.len() > 0 ==> s.subrange(o + lk, o + lk + dk) == disliked
            &&& s.subrange(s.len() - ending.len(), s.len() as int) == ending
        }),
{
    let s = judge_prompt(name, likes, dislikes);
    let opening = "You are judging whether a single message aligns with what "@ + name
        + " likes or dislikes, for an affection meter in a chat app. "@;
    let liked = name + " responds positively to: "@ + likes + ". "@;
    let disliked = name + " responds negatively to: "@ + dislikes + ". "@;
    let ending = "Read the user's message below and decide: does it align with what they like, what they dislike, or neither? Respond with exactly one word: LIKE, DISLIKE, or NEUTRAL \u{2014} nothing else."@;
    let pos = if likes.len() > 0 { liked } else { Seq::<char>::empty() };
    let neg = if dislikes.len() > 0 { disliked } else { Seq::<char>::empty() };
    let o: int = opening.len() as int;
    let p: int = pos.len() as int;
    let q: int = neg.len() as int;
    assert(s == opening + pos + neg + ending);
    assert(s.subrange(0, opening.len() as int) =~= opening);
    assert(s.subrange(o, o + p) =~= pos);
    assert(s.subrange(o + p, o + p + q) =~= neg);
    assert(s.subrange(s.len() - ending.len(), s.len() as int) =~= ending);
}

/// Whether the persona has anything configured to judge by.
pub open spec fn judges(p: Persona) -> bool {
    trimmed(p.likes@).len() > 0 || trimmed(p.dislikes@).len() > 0
}

/// The judging instructions for `persona`, or `None` when it has neither
/// likes nor dislikes (then every message is neutral and the model is not
/// asked).
pub fn judge_instructions(persona: &Persona) -> (r: Option<String>)
    ensures
        r is Some <==> judges(*persona),
        r matches Some(s) ==> s@ == judge_prompt(
            persona.name@,
            trimmed(persona.likes@),
            trimmed(persona.dislikes@),
        ),
{
    let l = chars_of(persona.likes.as_str());
    let likes = trim_chars(&l);
    let d = chars_of(persona.dislikes.as_str());
    let dislikes = trim_chars(&d);
    if likes.len() == 0 && dislikes.len() == 0 {
        return None;
    }
    let name = chars_of(persona.name.as_str());
    let mut v = chars_of("You are judging whether a single message aligns with what ");
    push_all(&mut v, &name);
    push_str(&mut v, " likes or dislikes, for an affection meter in a chat app. ");
    let ghost head = v@;
    let mut pos: Vec<char> = Vec::new();
    if likes.len() > 0 {
        push_all(&mut pos, &name);
        push_str(&mut pos, " responds positively to: ");
        push_all(&mut pos, &likes);
        push_str(&mut pos, ". ");
    }
    let mut neg: Vec<char> = Vec::new();
    if dislikes.len() > 0 {
        push_all(&mut neg, &name);
        push_str(&mut neg, " responds negatively to: ");
        push_all(&mut neg, &dislikes);
        push_str(&mut neg, ". ");
    }
    push_all(&mut v, &pos);
    push_all(&mut v, &neg);
    push_str(
        &mut v,
        "Read the user's message below and decide: does it align with what they like, what they dislike, or neither? Respond with exactly one word: LIKE, DISLIKE, or NEUTRAL \u{2014} nothing else.",
    );
    proof {
        let nm = persona.name@;
        assert(pos@ =~= (if likes@.len() > 0 {
            nm + " responds positively to: "@ + likes@ + ". "@
        } else {
            Seq::<char>::empty()
        }));
        assert(neg@ =~= (if dislikes@.len() > 0 {
            nm + " responds negatively to: "@ + dislikes@ + ". "@
        } else {
            Seq::<char>::empty()
        }));
        assert(v@ =~= judge_prompt(nm, likes@, dislikes@));
    }
    Some(string_from_chars(&v))
}

/// The verdict in an upper-cased reply: `DISLIKE` anywhere means disliked
/// (checked first, since it contains `LIKE`), else `LIKE` anywhere means
/// liked, else neutral.
pub open spec fn verdict_of(upper: Seq<char>) -> Sentiment {
    if has_substring(upper, "DISLIKE"@) {
        Sentiment::Disliked
    } else if has_substring(upper, "LIKE"@) {
        Sentiment::Liked
    } else {
        Sentiment::Neutral
    }
}

/// The sentiment a model's reply expresses: the verdict in its upper-cased
/// text.
pub open spec fn reply_sentiment(reply: Seq<char>) -> Sentiment {
    verdict_of(uppercase_of(reply))
}

/// A reply that says `DISLIKE` also contains `LIKE`; it is judged disliked
/// all the same, because dislike is checked first.
pub proof fn law_dislike_wins_over_like(reply: Seq<char>)
    requires
        has_substring(uppercase_of(reply), "DISLIKE"@),
    ensures
        has_substring(uppercase_of(reply), "LIKE"@),
        reply_sentiment(reply) == Sentiment::Disliked,
{
    reveal_strlit("DISLIKE");
    reveal_strlit("LIKE");
    let u = uppercase_of(reply);
    let i = choose|i: int| crate::text::occurs_at(u, "DISLIKE"@, i);
    assert(u.subrange(i, i + 7) == "DISLIKE"@);
    assert(u.subrange(i + 3, i + 7) =~= u.subrange(i, i + 7).subrange(3, 7));
    assert("DISLIKE"@.subrange(3, 7) =~= "LIKE"@);
    assert(crate::text::occurs_at(u, "LIKE"@, i + 3));
}

/// Reads the verdict in an already upper-cased reply.
pub fn classify_uppercased(upper: &str) -> (r: Sentiment)
    ensures
        r == verdict_of(upper@),
{
    let u = chars_of(upper);
    let dislike = chars_of("DISLIKE");
    if contains_chars(&u, &dislike) {
        return Sentiment::Disliked;
    }
    let like = chars_of("LIKE");
    if contains_chars(&u, &like) {
        Sentiment::Liked
    } else {
        Sentiment::Neutral
    }
}

/// Reads the model's one-word verdict, whatever its case.
pub fn classify_reply(reply: &str) -> (r: Sentiment)
    ensures
        r == reply_sentiment(reply@),
{
    let upper = to_uppercase(reply);
    classify_uppercased(upper.as_str())
}

/// The first step of judging a message: either already decided, or the
/// conversation to ask the model.
#[derive(Debug)]
pub enum ClassifyStep {
    /// The verdict, known without asking the model.
    Decided(Sentiment),
    /// Ask the model with these messages; read its reply with `classify_reply`.
    Ask(Vec<ChatMessage>),
}

/// Judges `message` for `persona`: neutral straight away when the persona
/// has neither likes nor dislikes, else the judging instructions followed by
/// the message, for the model.
pub fn classify_message(persona: &Persona, message: &str) -> (r: ClassifyStep)
    ensures
        match r {
            ClassifyStep::Decided(s) => !judges(*persona) && s == Sentiment::Neutral,
            ClassifyStep::Ask(msgs) => {
                &&& judges(*persona)
                &&& msgs@.len() == 2
                &&& is_plain_message(
                    msgs@[0],
                    system_role(),
                    judge_prompt(persona.name@, trimmed(persona.likes@), trimmed(persona.dislikes@)),
                )
                &&& is_plain_message(msgs@[1], user_role(), message@)
            },
        },
{
    match judge_instructions(persona) {
        None => ClassifyStep::Decided(Sentiment::Neutral),
        Some(instructions) => {
            let mut msgs: Vec<ChatMessage> = Vec::new();
            msgs.push(ChatMessage::system(instructions));
            msgs.push(ChatMessage::user(message.to_owned()));
            ClassifyStep::Ask(msgs)
        },
    }
}

} // verus!
