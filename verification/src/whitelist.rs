//! The lists of addresses that a provider may be asked for.
use vstd::prelude::*;

verus! {

/// A pattern of a list that is no regular expression, by its position.
#[derive(Debug, PartialEq, Eq)]
pub struct BadPattern {
    pub index: usize,
}

/// Whether one of the patterns matches a text: the answer of the first one that
/// does, or the position of the first one before it that is no regular expression.
pub open spec fn first_answer(patterns: Seq<Seq<char>>, text: Seq<char>, from: nat) -> Result<
    bool,
    nat,
>
    decreases patterns.len() - from,
{
    if from >= patterns.len() {
        Ok(false)
    } else {
        match crate::pattern::regex_match(patterns[from as int], text) {
            None => Err(from),
            Some(true) => Ok(true),
            Some(false) => first_answer(patterns, text, from + 1),
        }
    }
}

/// Tests an address against the patterns of a list.
pub fn is_listed(patterns: &Vec<String>, address: &str) -> (r: Result<bool, BadPattern>)
    ensures
        match r {
            Ok(listed) => first_answer(patterns.deep_view(), address@, 0) == Ok::<bool, nat>(
                listed,
            ),
            Err(bad) => first_answer(patterns.deep_view(), address@, 0) == Err::<bool, nat>(
                bad.index as nat,
            ),
        },
{
    let mut i: usize = 0;
    while i < patterns.len()
        invariant
            i <= patterns.len(),
            first_answer(patterns.deep_view(), address@, 0) == first_answer(
                patterns.deep_view(),
                address@,
                i as nat,
            ),
        decreases patterns.len() - i,
    {
        assert(patterns.deep_view()[i as int] == patterns@[i as int]@);
        match crate::pattern::is_match(patterns[i].as_str(), address) {
            Ok(true) => return Ok(true),
            Ok(false) => {},
            Err(_) => return Err(BadPattern { index: i }),
        }
        i += 1;
    }
    Ok(false)
}

/// The addresses that YouTube's provider may be asked for.
pub open spec fn is_youtube_address(text: Seq<char>) -> bool {
    ||| crate::pattern::under_host(".youtube.com/"@, text)
    ||| crate::pattern::at_host("youtube.com/"@, text)
    ||| crate::pattern::at_host("youtu.be/"@, text)
    ||| crate::pattern::under_host(".youtu.be/"@, text)
    ||| crate::pattern::under_host(".googlevideo.com/"@, text)
}

/// An address is listed if a pattern matches it and all patterns before that one are
/// regular expressions, and is not if all are and none matches it; a pattern that is none
/// is told by its position unless one before it matches.
pub proof fn one_match_is_enough(
    patterns: &Vec<String>,
    address: &str,
    at: int,
    r: Result<bool, BadPattern>,
)
    requires
        call_ensures(is_listed, (patterns, address), r),
        0 <= at <= patterns@.len(),
        forall|i: int|
            0 <= i < at ==> crate::pattern::regex_match((#[trigger] patterns@[i])@, address@)
                == Some(false),
    ensures
        at == patterns@.len() ==> r == Ok::<bool, BadPattern>(false),
        at < patterns@.len() ==> match crate::pattern::regex_match(patterns@[at]@, address@) {
            Some(true) => r == Ok::<bool, BadPattern>(true),
            Some(false) => true,
            None => r is Err && r->Err_0.index == at,
        },
{
    let all = patterns.deep_view();
    assert forall|i: int| 0 <= i < all.len() implies #[trigger] all[i] == patterns@[i]@ by {}
    lemma_passed_over(all, address@, 0, at as nat);
}

proof fn lemma_passed_over(patterns: Seq<Seq<char>>, text: Seq<char>, from: nat, at: nat)
    requires
        from <= at <= patterns.len(),
        forall|i: int|
            from <= i < at ==> crate::pattern::regex_match(#[trigger] patterns[i], text) == Some(
                false,
            ),
    ensures
        first_answer(patterns, text, from) == first_answer(patterns, text, at),
    decreases at - from,
{
    if from < at {
        assert(crate::pattern::regex_match(patterns[from as int], text) == Some(false));
        lemma_passed_over(patterns, text, from + 1, at);
    }
}

} // verus!
