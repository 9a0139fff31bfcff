//! What the score pages show of a player, and the score submission token.
use crate::text::{append_decimal, decimal};
use vstd::prelude::*;
use vstd::string::StringExecFns;

verus! {

/// `s` padded on the left with `'0'` to at least `width` characters.
pub open spec fn zero_padded(s: Seq<char>, width: nat) -> Seq<char> {
    if s.len() >= width {
        s
    } else {
        Seq::new((width - s.len()) as nat, |i: int| '0') + s
    }
}

/// `s` cut into groups of three characters from the left, joined by spaces.
pub open spec fn grouped_by_three(s: Seq<char>) -> Seq<char>
    decreases s.len(),
{
    if s.len() <= 3 {
        s
    } else {
        s.subrange(0, 3) + seq![' '] + grouped_by_three(s.subrange(3, s.len() as int))
    }
}

/// A user code as shown: its decimal text padded to nine digits, in groups of three.
pub open spec fn user_code_text(code: int) -> Seq<char> {
    grouped_by_three(zero_padded(decimal(code), 9))
}

/// The rating level shown beside a player: -1 when the rating is hidden, else
/// the number of the thresholds 349, 699, 999, 1000, 1199 and 1249 that the
/// rating exceeds.
pub open spec fn rating_level_of(rating: int, hidden: bool) -> int {
    if hidden {
        -1
    } else if rating <= 349 {
        0
    } else if rating <= 699 {
        1
    } else if rating <= 999 {
        2
    } else if rating <= 1000 {
        3
    } else if rating <= 1199 {
        4
    } else if rating <= 1249 {
        5
    } else {
        6
    }
}

/// Formats a user code for display: nine digits at least, in groups of three.
pub fn format_user_code(code: i64) -> (r: String)
    ensures
        r@ == user_code_text(code as int),
{
    let mut digits = String::new();
    append_decimal(&mut digits, code);
    assert(digits@ =~= decimal(code as int));
    let mut padded = String::new();
    let n = digits.as_str().unicode_len();
    let mut k: usize = n;
    proof {
        reveal_strlit("0");
    }
    while k < 9
        invariant
            n <= k,
            k <= 9 || k == n,
            n == digits@.len(),
            padded@ =~= Seq::new((k - n) as nat, |i: int| '0'),
        decreases 9 - k,
    {
        proof {
            reveal_strlit("0");
        }
        padded.append("0");
        k += 1;
    }
    padded.append(digits.as_str());
    assert(padded@ =~= zero_padded(digits@, 9));
    let text = padded.as_str();
    let len = text.unicode_len();
    let mut out = String::new();
    let mut i: usize = 0;
    assert(text@.subrange(0, len as int) =~= text@);
    assert(out@ + grouped_by_three(text@) =~= grouped_by_three(text@));
    while len - i > 3
        invariant
            i <= len,
            len == text@.len(),
            out@ + grouped_by_three(text@.subrange(i as int, len as int)) == grouped_by_three(text@),
        decreases len - i,
    {
        let ghost rest = text@.subrange(i as int, len as int);
        let ghost before = out@;
        proof {
            reveal_strlit(" ");
        }
        assert(grouped_by_three(rest) == rest.subrange(0, 3) + seq![' '] + grouped_by_three(rest.subrange(3, rest.len() as int)));
        assert(rest.subrange(0, 3) =~= text@.subrange(i as int, i + 3));
        assert(rest.subrange(3, rest.len() as int) =~= text@.subrange(i + 3, len as int));
        out.append(text.substring_char(i, i + 3));
        out.append(" ");
        assert(out@ + grouped_by_three(text@.subrange(i + 3, len as int)) =~= before + grouped_by_three(rest));
        i += 3;
    }
    out.append(text.substring_char(i, len));
    out
}

/// What a score page shows of a player.
pub struct UserInfoForScoreLookup {
    pub name: String,
    pub user_code: String,
    pub favorite_character: i8,
    pub is_uncapped: bool,
    pub is_uncapped_override: bool,
    pub rating: isize,
    pub is_hide_rating: bool,
}

impl UserInfoForScoreLookup {
    /// The page data of a player, with the user code formatted for display.
    pub fn new(
        name: String,
        user_code: i64,
        favorite_character: i8,
        is_uncapped: bool,
        is_uncapped_override: bool,
        rating: isize,
        is_hide_rating: bool,
    ) -> (r: UserInfoForScoreLookup)
        ensures
            r.name == name,
            r.user_code@ == user_code_text(user_code as int),
            r.favorite_character == favorite_character,
            r.is_uncapped == is_uncapped,
            r.is_uncapped_override == is_uncapped_override,
            r.rating == rating,
            r.is_hide_rating == is_hide_rating,
    {
        UserInfoForScoreLookup {
            name,
            user_code: format_user_code(user_code),
            favorite_character,
            is_uncapped,
            is_uncapped_override,
            rating,
            is_hide_rating,
        }
    }

    /// The rating level shown beside the player.
    pub fn get_rating_level(&self) -> (r: i8)
        ensures
            r as int == rating_level_of(self.rating as int, self.is_hide_rating),
    {
        if self.is_hide_rating {
            return -1;
        }
        let steps: [isize; 6] = [349, 699, 999, 1000, 1199, 1249];
        let mut level: usize = 0;
        while level < 6 && self.rating > steps[level]
            invariant
                level <= 6,
                steps@ == seq![349isize, 699, 999, 1000, 1199, 1249],
                forall|k: int| 0 <= k < level ==> self.rating > #[trigger] steps@[k],
            decreases 6 - level,
        {
            level += 1;
        }
        level as i8
    }
}

/// The token that a client must present with its next score submission.
pub fn gen_token() -> (r: String)
    ensures
        r@ == "nothing"@,
{
    String::from_str("nothing")
}

/// The answer to a request for a score submission token:
/// `{"success": true, "value": {"token": "<token>"}}`.
pub fn token() -> (r: String)
    ensures
        r@ == "{\"success\": true, \"value\": {\"token\": \""@ + "nothing"@ + "\"}}"@,
{
    let mut r = String::from_str("{\"success\": true, \"value\": {\"token\": \"");
    let t = gen_token();
    r.append(t.as_str());
    r.append("\"}}");
    r
}

} // verus!
