//! Addresses of the Data Dragon image service.
use vstd::prelude::*;
use vstd::string::StringExecFns;
use crate::splashes::Skin;

verus! {

/// The character of one decimal digit.
pub open spec fn digit_char(d: nat) -> char {
    if d == 0 {
        '0'
    } else if d == 1 {
        '1'
    } else if d == 2 {
        '2'
    } else if d == 3 {
        '3'
    } else if d == 4 {
        '4'
    } else if d == 5 {
        '5'
    } else if d == 6 {
        '6'
    } else if d == 7 {
        '7'
    } else if d == 8 {
        '8'
    } else {
        '9'
    }
}

/// The decimal notation of `n`, without leading zeros.
pub open spec fn decimal(n: nat) -> Seq<char>
    decreases n,
{
    if n < 10 {
        seq![digit_char(n)]
    } else {
        decimal(n / 10) + seq![digit_char(n % 10)]
    }
}

/// The name under which the service files a skin's champion: the one skin
/// with id `9027` is filed under `FiddleSticks`; an unknown champion is empty.
pub open spec fn splash_champion(skin: &Skin) -> Seq<char> {
    if skin.id@ == "9027"@ {
        "FiddleSticks"@
    } else {
        match skin.champ {
            Some(c) => c@,
            None => Seq::empty(),
        }
    }
}

/// The address of a skin's splash art.
pub open spec fn splash_url_of(skin: &Skin) -> Seq<char> {
    "https://ddragon.leagueoflegends.com/cdn/img/champion/splash/"@ + splash_champion(skin) + "_"@
        + decimal(skin.num as nat) + ".jpg"@
}

/// The one-character string of digit `d`.
fn digit_str(d: u32) -> (r: &'static str)
    requires
        d < 10,
    ensures
        r@ == seq![digit_char(d as nat)],
{
    proof {
        reveal_strlit("0");
        reveal_strlit("1");
        reveal_strlit("2");
        reveal_strlit("3");
        reveal_strlit("4");
        reveal_strlit("5");
        reveal_strlit("6");
        reveal_strlit("7");
        reveal_strlit("8");
        reveal_strlit("9");
    }
    if d == 0 {
        "0"
    } else if d == 1 {
        "1"
    } else if d == 2 {
        "2"
    } else if d == 3 {
        "3"
    } else if d == 4 {
        "4"
    } else if d == 5 {
        "5"
    } else if d == 6 {
        "6"
    } else if d == 7 {
        "7"
    } else if d == 8 {
        "8"
    } else {
        "9"
    }
}

/// Appends the decimal notation of `n` to `s`.
fn push_decimal(s: &mut String, n: u32)
    ensures
        final(s)@ == old(s)@ + decimal(n as nat),
    decreases n,
{
    if n >= 10 {
        push_decimal(s, n / 10);
    }
    s.append(digit_str(n % 10));
    assert(decimal(n as nat) == if n < 10 {
        seq![digit_char(n as nat)]
    } else {
        decimal((n / 10) as nat) + seq![digit_char((n % 10) as nat)]
    });
}

/// The address of the splash art of `skin` on the Data Dragon service.
pub fn splash_url(skin: &Skin) -> (r: String)
    ensures
        r@ == splash_url_of(skin),
{
    let mut url = String::from_str("https://ddragon.leagueoflegends.com/cdn/img/champion/splash/");
    let special = String::from_str("9027");
    if skin.id == special {
        url.append("FiddleSticks");
    } else {
        match &skin.champ {
            Some(c) => url.append(c.as_str()),
            None => {},
        }
    }
    url.append("_");
    push_decimal(&mut url, skin.num);
    url.append(".jpg");
    proof {
        reveal_strlit("https://ddragon.leagueoflegends.com/cdn/img/champion/splash/");
        reveal_strlit("9027");
        reveal_strlit("FiddleSticks");
        reveal_strlit("_");
        reveal_strlit(".jpg");
    }
    url
}

} // verus!
