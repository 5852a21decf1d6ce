//! The command that is listed for a display restores what was listed: read
//! as a configuration string, it asks for the settings that the display had.

use crate::error::DisplayErrorView;
use crate::hertz::{parse_hertz_spec, round_half_even, whole_text, Hertz};
use crate::model::{DisplayConfigView, DisplayInfoView};
use crate::number::{
    all_digits, decimal, is_digit, lemma_decimal_reads_back, lemma_i32_round_trip,
    lemma_u32_round_trip, parse_bool_spec, signed_decimal,
};
use crate::parser::{
    parse_config_spec, parse_origin_spec, parse_resolution_spec, read_token, read_tokens,
};
use crate::report::{command_text, mirror_text};
use crate::text::{
    ends_in_word, is_whitespace, lemma_offset_of_is, lemma_words_begin, lemma_words_extend,
    lemma_words_space, no_whitespace, trim_end_parens, trim_parens, trim_start_parens, words,
};
use vstd::prelude::*;

verus! {

/// The request that the command of a display writes: every setting of the
/// display but its mode number, the refresh rate in whole hertz.
pub open spec fn command_request(info: DisplayInfoView) -> DisplayConfigView {
    DisplayConfigView {
        id: info.persistent_id,
        mode: None,
        resolution: Some((info.width, info.height)),
        hz: Some(Hertz { millis: (round_half_even(info.hz.millis as nat, 1000) * 1000) as u32 }),
        color_depth: Some(info.depth),
        scaling: Some(info.scaling),
        origin: Some((info.x, info.y)),
        degree: Some(info.rotation),
        mirror: match info.mirror_of {
            Some(target) => Some(decimal(target as nat)),
            None => None,
        },
        enabled: Some(info.enabled),
    }
}

/// Whether `c` is a character that numbers are written with: a digit or a minus sign.
pub open spec fn is_numeric(c: char) -> bool {
    is_digit(c) || c == '-'
}

/// Whether `s` is written with digits and minus signs alone.
pub open spec fn numeric(s: Seq<char>) -> bool {
    forall|i: int| 0 <= i < s.len() ==> is_numeric(#[trigger] s[i])
}

/// A number is written without whitespace, and is not empty.
proof fn lemma_decimal_is_numeric(n: nat)
    ensures
        decimal(n).len() > 0,
        numeric(decimal(n)),
        all_digits(decimal(n)),
        no_whitespace(decimal(n)),
{
    lemma_decimal_reads_back(n);
    assert forall|i: int| 0 <= i < decimal(n).len() implies is_numeric(#[trigger] decimal(n)[i])
        && !is_whitespace(decimal(n)[i]) by {
        assert(is_digit(decimal(n)[i]));
    }
}

/// A signed number is written without whitespace, and is not empty.
proof fn lemma_signed_is_numeric(n: int)
    ensures
        signed_decimal(n).len() > 0,
        numeric(signed_decimal(n)),
        no_whitespace(signed_decimal(n)),
        is_digit(signed_decimal(n).last()),
{
    let text = signed_decimal(n);
    if n < 0 {
        let digits = decimal((-n) as nat);
        lemma_decimal_is_numeric((-n) as nat);
        assert forall|i: int| 0 <= i < text.len() implies is_numeric(#[trigger] text[i])
            && !is_whitespace(text[i]) by {
            if i > 0 {
                assert(text[i] == digits[i - 1]);
                assert(is_numeric(digits[i - 1]));
            }
        }
        assert(text.last() == digits[digits.len() - 1]);
    } else {
        lemma_decimal_is_numeric(n as nat);
        assert(is_digit(text[text.len() - 1]));
    }
}

/// The token `id:` with a value names the display by that value.
proof fn lemma_id_token(config: DisplayConfigView, value: Seq<char>)
    ensures
        read_token(config, "id:"@ + value) == Ok::<DisplayConfigView, DisplayErrorView>(
            DisplayConfigView { id: value, ..config },
        ),
{
    reveal_strlit("id:");
    reveal_strlit("id");
    let token = "id:"@ + value;
    assert(token[0] == 'i' && token[1] == 'd' && token[2] == ':');
    lemma_offset_of_is(token, ':', 2);
    assert(token.take(2) =~= "id"@);
    assert(token.skip(3) =~= value);
}

/// The token `res:` with a width, an `x` and a height asks for that resolution.
proof fn lemma_res_token(config: DisplayConfigView, width: u32, height: u32)
    ensures
        read_token(config, "res:"@ + decimal(width as nat) + "x"@ + decimal(height as nat)) == Ok::<
            DisplayConfigView,
            DisplayErrorView,
        >(DisplayConfigView { resolution: Some((width, height)), ..config }),
{
    reveal_strlit("res:");
    reveal_strlit("res");
    reveal_strlit("x");
    reveal_strlit("id");
    reveal_strlit("mode");
    let w = decimal(width as nat);
    let h = decimal(height as nat);
    let token = "res:"@ + w + "x"@ + h;
    assert(token[0] == 'r' && token[1] == 'e' && token[2] == 's' && token[3] == ':');
    lemma_offset_of_is(token, ':', 3);
    assert(token.take(3) =~= "res"@);
    let value = w + "x"@ + h;
    assert(token.skip(4) =~= value);
    lemma_decimal_is_numeric(width as nat);
    assert forall|i: int| 0 <= i < w.len() implies #[trigger] value[i] != 'x' by {
        assert(value[i] == w[i]);
        assert(is_numeric(w[i]));
    }
    assert(value[w.len() as int] == 'x');
    lemma_offset_of_is(value, 'x', w.len() as int);
    assert(value.take(w.len() as int) =~= w);
    assert(value.skip(w.len() as int + 1) =~= h);
    lemma_u32_round_trip(width);
    lemma_u32_round_trip(height);
    assert("res"@.len() == 3 && "id"@.len() == 2 && "mode"@.len() == 4);
    assert(parse_resolution_spec(value) == Some((width, height)));
}

/// A rate rounded to whole hertz fits into the range of rates.
proof fn lemma_whole_hertz_fit(rate: Hertz)
    ensures
        round_half_even(rate.millis as nat, 1000) * 1000 <= u32::MAX,
{
    let q = rate.millis as nat / 1000;
    let r = rate.millis as nat % 1000;
    assert(rate.millis == q * 1000 + r) by (nonlinear_arith)
        requires
            q == rate.millis as nat / 1000,
            r == rate.millis as nat % 1000,
    ;
}

/// The token `hz:` with a rate in whole hertz asks for that rate.
proof fn lemma_hz_token(config: DisplayConfigView, rate: Hertz)
    ensures
        read_token(config, "hz:"@ + whole_text(rate)) == Ok::<DisplayConfigView, DisplayErrorView>(
            DisplayConfigView {
                hz: Some(
                    Hertz { millis: (round_half_even(rate.millis as nat, 1000) * 1000) as u32 },
                ),
                ..config
            },
        ),
{
    reveal_strlit("hz:");
    reveal_strlit("hz");
    reveal_strlit("id");
    reveal_strlit("mode");
    reveal_strlit("res");
    let whole = round_half_even(rate.millis as nat, 1000);
    let digits = decimal(whole);
    let token = "hz:"@ + digits;
    assert(token[0] == 'h' && token[1] == 'z' && token[2] == ':');
    lemma_offset_of_is(token, ':', 2);
    assert(token.take(2) =~= "hz"@);
    assert(token.skip(3) =~= digits);
    lemma_decimal_is_numeric(whole);
    lemma_decimal_reads_back(whole);
    lemma_whole_hertz_fit(rate);
    assert(is_numeric(digits[0]));
    assert forall|i: int| 0 <= i < digits.len() implies #[trigger] digits[i] != '.' by {
        assert(is_numeric(digits[i]));
    }
    lemma_offset_of_is(digits, '.', digits.len() as int);
    assert(digits.take(digits.len() as int) =~= digits);
    assert("hz"@[0] == 'h' && "id"@[0] == 'i');
    assert("hz"@.len() == 2 && "mode"@.len() == 4 && "res"@.len() == 3);
    assert(parse_hertz_spec(digits) == Some(Hertz { millis: (whole * 1000) as u32 }));
}

/// The token `color_depth:` with a number asks for that colour depth.
proof fn lemma_depth_token(config: DisplayConfigView, depth: u32)
    ensures
        read_token(config, "color_depth:"@ + decimal(depth as nat)) == Ok::<
            DisplayConfigView,
            DisplayErrorView,
        >(DisplayConfigView { color_depth: Some(depth), ..config }),
{
    reveal_strlit("color_depth:");
    reveal_strlit("color_depth");
    reveal_strlit("id");
    reveal_strlit("mode");
    reveal_strlit("res");
    reveal_strlit("hz");
    let digits = decimal(depth as nat);
    let token = "color_depth:"@ + digits;
    assert forall|i: int| 0 <= i < 11 implies #[trigger] token[i] != ':' by {
        assert(token[i] == "color_depth:"@[i]);
    }
    assert(token[11] == ':');
    lemma_offset_of_is(token, ':', 11);
    assert(token.take(11) =~= "color_depth"@);
    assert(token.skip(12) =~= digits);
    lemma_u32_round_trip(depth);
    assert("color_depth"@.len() == 11 && "id"@.len() == 2 && "mode"@.len() == 4 && "res"@.len()
        == 3 && "hz"@.len() == 2);
}

/// The word that says whether a display is scaled.
pub open spec fn scaling_word(scaling: bool) -> Seq<char> {
    if scaling {
        "scaling:on"@
    } else {
        "scaling:off"@
    }
}

/// The token `scaling:on` asks for scaling, the token `scaling:off` for none.
proof fn lemma_scaling_token(config: DisplayConfigView, scaling: bool)
    ensures
        read_token(config, scaling_word(scaling)) == Ok::<DisplayConfigView, DisplayErrorView>(
            DisplayConfigView { scaling: Some(scaling), ..config },
        ),
{
    reveal_strlit("scaling:on");
    reveal_strlit("scaling:off");
    reveal_strlit("scaling");
    reveal_strlit("on");
    reveal_strlit("off");
    reveal_strlit("id");
    reveal_strlit("mode");
    reveal_strlit("res");
    reveal_strlit("hz");
    reveal_strlit("color_depth");
    let token = scaling_word(scaling);
    assert forall|i: int| 0 <= i < 7 implies #[trigger] token[i] != ':' by {
        assert(token[i] == "scaling:on"@[i]);
    }
    assert(token[7] == ':');
    lemma_offset_of_is(token, ':', 7);
    assert(token.take(7) =~= "scaling"@);
    if scaling {
        assert(token.skip(8) =~= "on"@);
    } else {
        assert(token.skip(8) =~= "off"@);
        assert("off"@.len() == 3 && "on"@.len() == 2);
    }
    assert("scaling"@.len() == 7 && "id"@.len() == 2 && "mode"@.len() == 4 && "res"@.len() == 3
        && "hz"@.len() == 2 && "color_depth"@.len() == 11);
}

/// A position in parentheses reads as the two numbers that it holds.
proof fn lemma_origin_value(x: i32, y: i32)
    ensures
        parse_origin_spec(seq!['('] + signed_decimal(x as int) + seq![','] + signed_decimal(y as int)
            + seq![')']) == Some((x, y)),
{
    let sx = signed_decimal(x as int);
    let sy = signed_decimal(y as int);
    let value = seq!['('] + sx + seq![','] + sy + seq![')'];
    let rest = sx + seq![','] + sy + seq![')'];
    let inner = sx + seq![','] + sy;
    lemma_signed_is_numeric(x as int);
    lemma_signed_is_numeric(y as int);
    assert(value.drop_first() =~= rest);
    assert(rest[0] == sx[0]);
    assert(is_numeric(sx[0]));
    assert(trim_start_parens(rest) == rest);
    assert(trim_start_parens(value) == rest);
    assert(rest.drop_last() =~= inner);
    assert(inner.last() == sy.last());
    assert(trim_end_parens(inner) == inner);
    assert(trim_end_parens(rest) == inner);
    assert(trim_parens(value) == inner);
    assert forall|i: int| 0 <= i < sx.len() implies #[trigger] inner[i] != ',' by {
        assert(inner[i] == sx[i]);
        assert(is_numeric(sx[i]));
    }
    assert(inner[sx.len() as int] == ',');
    lemma_offset_of_is(inner, ',', sx.len() as int);
    assert(inner.take(sx.len() as int) =~= sx);
    assert(inner.skip(sx.len() as int + 1) =~= sy);
    lemma_i32_round_trip(x);
    lemma_i32_round_trip(y);
}

/// The token `origin:` with a position in parentheses asks for that position.
proof fn lemma_origin_token(config: DisplayConfigView, x: i32, y: i32)
    ensures
        read_token(
            config,
            "origin:("@ + signed_decimal(x as int) + ","@ + signed_decimal(y as int) + ")"@,
        ) == Ok::<DisplayConfigView, DisplayErrorView>(
            DisplayConfigView { origin: Some((x, y)), ..config },
        ),
{
    reveal_strlit("origin:(");
    reveal_strlit("origin");
    reveal_strlit(",");
    reveal_strlit(")");
    reveal_strlit("id");
    reveal_strlit("mode");
    reveal_strlit("res");
    reveal_strlit("hz");
    reveal_strlit("color_depth");
    reveal_strlit("scaling");
    let sx = signed_decimal(x as int);
    let sy = signed_decimal(y as int);
    let token = "origin:("@ + sx + ","@ + sy + ")"@;
    assert forall|i: int| 0 <= i < 6 implies #[trigger] token[i] != ':' by {
        assert(token[i] == "origin:("@[i]);
    }
    assert(token[6] == ':');
    lemma_offset_of_is(token, ':', 6);
    assert(token.take(6) =~= "origin"@);
    assert(token.skip(7) =~= seq!['('] + sx + seq![','] + sy + seq![')']);
    lemma_origin_value(x, y);
    assert("origin"@.len() == 6 && "id"@.len() == 2 && "mode"@.len() == 4 && "res"@.len() == 3
        && "hz"@.len() == 2 && "color_depth"@.len() == 11 && "scaling"@.len() == 7);
}

/// The token `degree:` with a number asks for that rotation.
proof fn lemma_degree_token(config: DisplayConfigView, degrees: u32)
    ensures
        read_token(config, "degree:"@ + decimal(degrees as nat)) == Ok::<
            DisplayConfigView,
            DisplayErrorView,
        >(DisplayConfigView { degree: Some(degrees), ..config }),
{
    reveal_strlit("degree:");
    reveal_strlit("degree");
    reveal_strlit("id");
    reveal_strlit("mode");
    reveal_strlit("res");
    reveal_strlit("hz");
    reveal_strlit("color_depth");
    reveal_strlit("scaling");
    reveal_strlit("origin");
    let digits = decimal(degrees as nat);
    let token = "degree:"@ + digits;
    assert forall|i: int| 0 <= i < 6 implies #[trigger] token[i] != ':' by {
        assert(token[i] == "degree:"@[i]);
    }
    assert(token[6] == ':');
    lemma_offset_of_is(token, ':', 6);
    assert(token.take(6) =~= "degree"@);
    assert(token.skip(7) =~= digits);
    lemma_u32_round_trip(degrees);
    assert("degree"@.len() == 6 && "id"@.len() == 2 && "mode"@.len() == 4 && "res"@.len() == 3
        && "hz"@.len() == 2 && "color_depth"@.len() == 11 && "scaling"@.len() == 7);
    assert("degree"@[0] == 'd' && "origin"@[0] == 'o');
}

/// The token `mirror:` with a number names the display with that number as the mirror target.
proof fn lemma_mirror_token(config: DisplayConfigView, target: u32)
    ensures
        read_token(config, "mirror:"@ + decimal(target as nat)) == Ok::<
            DisplayConfigView,
            DisplayErrorView,
        >(DisplayConfigView { mirror: Some(decimal(target as nat)), ..config }),
{
    reveal_strlit("mirror:");
    reveal_strlit("mirror");
    reveal_strlit("id");
    reveal_strlit("mode");
    reveal_strlit("res");
    reveal_strlit("hz");
    reveal_strlit("color_depth");
    reveal_strlit("scaling");
    reveal_strlit("origin");
    reveal_strlit("degree");
    let digits = decimal(target as nat);
    let token = "mirror:"@ + digits;
    assert forall|i: int| 0 <= i < 6 implies #[trigger] token[i] != ':' by {
        assert(token[i] == "mirror:"@[i]);
    }
    assert(token[6] == ':');
    lemma_offset_of_is(token, ':', 6);
    assert(token.take(6) =~= "mirror"@);
    assert(token.skip(7) =~= digits);
    assert("mirror"@.len() == 6 && "id"@.len() == 2 && "mode"@.len() == 4 && "res"@.len() == 3
        && "hz"@.len() == 2 && "color_depth"@.len() == 11 && "scaling"@.len() == 7);
    assert("mirror"@[0] == 'm' && "origin"@[0] == 'o' && "degree"@[0] == 'd');
}

/// The word that says whether a display is enabled.
pub open spec fn enabled_word(enabled: bool) -> Seq<char> {
    if enabled {
        "enabled:true"@
    } else {
        "enabled:false"@
    }
}

/// The token `enabled:true` asks for an enabled display, the token
/// `enabled:false` for a disabled one.
proof fn lemma_enabled_token(config: DisplayConfigView, enabled: bool)
    ensures
        read_token(config, enabled_word(enabled)) == Ok::<DisplayConfigView, DisplayErrorView>(
            DisplayConfigView { enabled: Some(enabled), ..config },
        ),
{
    reveal_strlit("enabled:true");
    reveal_strlit("enabled:false");
    reveal_strlit("enabled");
    reveal_strlit("id");
    reveal_strlit("mode");
    reveal_strlit("res");
    reveal_strlit("hz");
    reveal_strlit("color_depth");
    reveal_strlit("scaling");
    reveal_strlit("origin");
    reveal_strlit("degree");
    reveal_strlit("mirror");
    let token = enabled_word(enabled);
    assert forall|i: int| 0 <= i < 7 implies #[trigger] token[i] != ':' by {
        assert(token[i] == "enabled:true"@[i]);
    }
    assert(token[7] == ':');
    lemma_offset_of_is(token, ':', 7);
    assert(token.take(7) =~= "enabled"@);
    if enabled {
        assert(token.skip(8) =~= seq!['t', 'r', 'u', 'e']);
    } else {
        assert(token.skip(8) =~= seq!['f', 'a', 'l', 's', 'e']);
    }
    assert("enabled"@.len() == 7 && "id"@.len() == 2 && "mode"@.len() == 4 && "res"@.len() == 3
        && "hz"@.len() == 2 && "color_depth"@.len() == 11 && "origin"@.len() == 6
        && "degree"@.len() == 6 && "mirror"@.len() == 6);
    assert("enabled"@[0] == 'e' && "scaling"@[0] == 's');
    assert(parse_bool_spec(token.skip(8)) == Some(enabled));
}

/// Whether `s` can stand in a word: it is not empty and holds no whitespace.
pub open spec fn plain(s: Seq<char>) -> bool {
    s.len() > 0 && no_whitespace(s)
}

/// The words of the command of a display.
pub open spec fn command_words(info: DisplayInfoView) -> Seq<Seq<char>> {
    let fixed = Seq::<Seq<char>>::empty().push("id:"@ + info.persistent_id).push(
        "res:"@ + decimal(info.width as nat) + "x"@ + decimal(info.height as nat),
    ).push("hz:"@ + whole_text(info.hz)).push("color_depth:"@ + decimal(info.depth as nat)).push(
        scaling_word(info.scaling),
    ).push(
        "origin:("@ + signed_decimal(info.x as int) + ","@ + signed_decimal(info.y as int) + ")"@,
    ).push("degree:"@ + decimal(info.rotation as nat));
    (match info.mirror_of {
        Some(target) => fixed.push("mirror:"@ + decimal(target as nat)),
        None => fixed,
    }).push(enabled_word(info.enabled))
}

/// A run without whitespace starts a word behind a text that ends outside of one.
proof fn lemma_begin(text: Seq<char>, done: Seq<Seq<char>>, piece: Seq<char>)
    requires
        words(text) == done,
        !ends_in_word(text),
        plain(piece),
    ensures
        words(text + piece) == done.push(piece),
        ends_in_word(text + piece),
{
    lemma_words_begin(text, piece);
}

/// A run without whitespace makes the last word longer behind a text that ends inside it.
proof fn lemma_more(text: Seq<char>, done: Seq<Seq<char>>, word: Seq<char>, piece: Seq<char>)
    requires
        words(text) == done.push(word),
        ends_in_word(text),
        no_whitespace(piece),
    ensures
        words(text + piece) == done.push(word + piece),
        ends_in_word(text + piece),
{
    lemma_words_extend(text, piece);
    assert(done.push(word).drop_last() =~= done);
}

/// A space ends the last word and adds none.
proof fn lemma_space(text: Seq<char>, done: Seq<Seq<char>>)
    requires
        words(text) == done,
    ensures
        words(text + " "@) == done,
        !ends_in_word(text + " "@),
{
    reveal_strlit(" ");
    assert(" "@ =~= seq![' ']);
    lemma_words_space(text);
}

/// A space and a run without whitespace behind it start a word.
proof fn lemma_space_begin(
    text: Seq<char>,
    done: Seq<Seq<char>>,
    literal: Seq<char>,
    start: Seq<char>,
)
    requires
        words(text) == done,
        literal == seq![' '] + start,
        plain(start),
    ensures
        words(text + literal) == done.push(start),
        ends_in_word(text + literal),
{
    assert(text + literal =~= (text + seq![' ']) + start);
    lemma_words_space(text);
    lemma_words_begin(text + seq![' '], start);
}

/// A run without whitespace and a space behind it end the last word.
proof fn lemma_more_space(
    text: Seq<char>,
    done: Seq<Seq<char>>,
    word: Seq<char>,
    literal: Seq<char>,
    piece: Seq<char>,
)
    requires
        words(text) == done.push(word),
        ends_in_word(text),
        literal == piece + seq![' '],
        no_whitespace(piece),
    ensures
        words(text + literal) == done.push(word + piece),
        !ends_in_word(text + literal),
{
    assert(text + literal =~= (text + piece) + seq![' ']);
    lemma_more(text, done, word, piece);
    lemma_words_space(text + piece);
}

/// A run without whitespace and a space behind it are a word of their own.
proof fn lemma_begin_space(
    text: Seq<char>,
    done: Seq<Seq<char>>,
    literal: Seq<char>,
    piece: Seq<char>,
)
    requires
        words(text) == done,
        !ends_in_word(text),
        literal == piece + seq![' '],
        plain(piece),
    ensures
        words(text + literal) == done.push(piece),
        !ends_in_word(text + literal),
{
    assert(text + literal =~= (text + piece) + seq![' ']);
    lemma_words_begin(text, piece);
    lemma_words_space(text + piece);
}

/// The part of a command that names the mirror target is one word, or nothing.
proof fn lemma_mirror_words(text: Seq<char>, done: Seq<Seq<char>>, mirror_of: Option<u32>)
    requires
        words(text) == done,
        !ends_in_word(text),
    ensures
        words(text + mirror_text(mirror_of)) == (match mirror_of {
            Some(target) => done.push("mirror:"@ + decimal(target as nat)),
            None => done,
        }),
        !ends_in_word(text + mirror_text(mirror_of)),
{
    match mirror_of {
        Some(target) => {
            reveal_strlit("mirror:");
            reveal_strlit(" ");
            let digits = decimal(target as nat);
            lemma_decimal_is_numeric(target as nat);
            assert(plain("mirror:"@));
            lemma_begin(text, done, "mirror:"@);
            assert(" "@ =~= Seq::<char>::empty() + seq![' ']);
            assert(text + mirror_text(mirror_of) =~= ((text + "mirror:"@) + digits) + " "@);
            lemma_more(text + "mirror:"@, done, "mirror:"@, digits);
            lemma_words_extend((text + "mirror:"@) + digits, Seq::<char>::empty());
            lemma_space((text + "mirror:"@) + digits, done.push("mirror:"@ + digits));
        },
        None => {
            assert(text + mirror_text(mirror_of) =~= text);
        },
    }
}

/// The literal parts of a command, as they stand between its words.
proof fn lemma_command_literals()
    ensures
        plain("id:"@),
        plain("res:"@),
        " res:"@ == seq![' '] + "res:"@,
        plain("x"@),
        plain("hz:"@),
        " hz:"@ == seq![' '] + "hz:"@,
        plain("color_depth:"@),
        " color_depth:"@ == seq![' '] + "color_depth:"@,
        plain("scaling:on"@),
        plain("scaling:off"@),
        "scaling:on "@ == "scaling:on"@ + seq![' '],
        "scaling:off "@ == "scaling:off"@ + seq![' '],
        plain("origin:("@),
        plain(","@),
        plain(")"@),
        ") "@ == ")"@ + seq![' '],
        plain("degree:"@),
        plain("enabled:true"@),
        plain("enabled:false"@),
{
    reveal_strlit("id:");
    reveal_strlit("res:");
    reveal_strlit(" res:");
    reveal_strlit("x");
    reveal_strlit("hz:");
    reveal_strlit(" hz:");
    reveal_strlit("color_depth:");
    reveal_strlit(" color_depth:");
    reveal_strlit("scaling:on");
    reveal_strlit("scaling:off");
    reveal_strlit("scaling:on ");
    reveal_strlit("scaling:off ");
    reveal_strlit("origin:(");
    reveal_strlit(",");
    reveal_strlit(")");
    reveal_strlit(") ");
    reveal_strlit("degree:");
    reveal_strlit("enabled:true");
    reveal_strlit("enabled:false");
    assert(" res:"@ =~= seq![' '] + "res:"@);
    assert(" hz:"@ =~= seq![' '] + "hz:"@);
    assert(" color_depth:"@ =~= seq![' '] + "color_depth:"@);
    assert("scaling:on "@ =~= "scaling:on"@ + seq![' ']);
    assert("scaling:off "@ =~= "scaling:off"@ + seq![' ']);
    assert(") "@ =~= ")"@ + seq![' ']);
}

/// The command of a display falls into the words of `command_words`.
pub proof fn lemma_command_words(info: DisplayInfoView)
    requires
        plain(info.persistent_id),
    ensures
        words(command_text(info)) == command_words(info),
{
    lemma_command_literals();
    lemma_decimal_is_numeric(info.width as nat);
    lemma_decimal_is_numeric(info.height as nat);
    lemma_decimal_is_numeric(round_half_even(info.hz.millis as nat, 1000));
    lemma_decimal_is_numeric(info.depth as nat);
    lemma_decimal_is_numeric(info.rotation as nat);
    lemma_signed_is_numeric(info.x as int);
    lemma_signed_is_numeric(info.y as int);
    let pid = info.persistent_id;
    let w = decimal(info.width as nat);
    let h = decimal(info.height as nat);
    let hz = whole_text(info.hz);
    let depth = decimal(info.depth as nat);
    let sx = signed_decimal(info.x as int);
    let sy = signed_decimal(info.y as int);
    let rot = decimal(info.rotation as nat);
    let none = Seq::<Seq<char>>::empty();
    let t0 = Seq::<char>::empty();
    assert(words(t0) =~= none);

    let t1 = t0 + "id:"@;
    lemma_begin(t0, none, "id:"@);
    let t2 = t1 + pid;
    lemma_more(t1, none, "id:"@, pid);
    let d1 = none.push("id:"@ + pid);

    let t3 = t2 + " res:"@;
    lemma_space_begin(t2, d1, " res:"@, "res:"@);
    let t4 = t3 + w;
    lemma_more(t3, d1, "res:"@, w);
    let t5 = t4 + "x"@;
    lemma_more(t4, d1, "res:"@ + w, "x"@);
    let t6 = t5 + h;
    lemma_more(t5, d1, "res:"@ + w + "x"@, h);
    let d2 = d1.push("res:"@ + w + "x"@ + h);

    let t7 = t6 + " hz:"@;
    lemma_space_begin(t6, d2, " hz:"@, "hz:"@);
    let t8 = t7 + hz;
    lemma_more(t7, d2, "hz:"@, hz);
    let d3 = d2.push("hz:"@ + hz);

    let t9 = t8 + " color_depth:"@;
    lemma_space_begin(t8, d3, " color_depth:"@, "color_depth:"@);
    let t10 = t9 + depth;
    lemma_more(t9, d3, "color_depth:"@, depth);
    let d4 = d3.push("color_depth:"@ + depth);

    let t11 = t10 + " "@;
    lemma_space(t10, d4);
    let scaling_piece = if info.scaling {
        "scaling:on "@
    } else {
        "scaling:off "@
    };
    let t12 = t11 + scaling_piece;
    lemma_begin_space(t11, d4, scaling_piece, scaling_word(info.scaling));
    let d5 = d4.push(scaling_word(info.scaling));

    let t13 = t12 + "origin:("@;
    lemma_begin(t12, d5, "origin:("@);
    let t14 = t13 + sx;
    lemma_more(t13, d5, "origin:("@, sx);
    let t15 = t14 + ","@;
    lemma_more(t14, d5, "origin:("@ + sx, ","@);
    let t16 = t15 + sy;
    lemma_more(t15, d5, "origin:("@ + sx + ","@, sy);
    let t17 = t16 + ") "@;
    lemma_more_space(t16, d5, "origin:("@ + sx + ","@ + sy, ") "@, ")"@);
    let d6 = d5.push("origin:("@ + sx + ","@ + sy + ")"@);

    let t18 = t17 + "degree:"@;
    lemma_begin(t17, d6, "degree:"@);
    let t19 = t18 + rot;
    lemma_more(t18, d6, "degree:"@, rot);
    let d7 = d6.push("degree:"@ + rot);

    let t20 = t19 + " "@;
    lemma_space(t19, d7);
    let t21 = t20 + mirror_text(info.mirror_of);
    lemma_mirror_words(t20, d7, info.mirror_of);
    let d8 = match info.mirror_of {
        Some(target) => d7.push("mirror:"@ + decimal(target as nat)),
        None => d7,
    };
    let t22 = t21 + enabled_word(info.enabled);
    lemma_begin(t21, d8, enabled_word(info.enabled));
    assert(t22 == command_text(info));
}

/// Reading one more token comes after reading the tokens before it.
proof fn lemma_read_one_more(
    config: DisplayConfigView,
    done: Seq<Seq<char>>,
    token: Seq<char>,
)
    ensures
        read_tokens(config, done.push(token)) == (match read_tokens(config, done) {
            Ok(read) => read_token(read, token),
            Err(error) => Err(error),
        }),
{
    assert(done.push(token).drop_last() =~= done);
}

/// Read one after the other, the words of a command give the request of the command.
pub proof fn lemma_command_words_read(info: DisplayInfoView)
    ensures
        read_tokens(DisplayConfigView::blank(), command_words(info)) == Ok::<
            DisplayConfigView,
            DisplayErrorView,
        >(command_request(info)),
{
    let blank = DisplayConfigView::blank();
    let none = Seq::<Seq<char>>::empty();
    let w1 = "id:"@ + info.persistent_id;
    let w2 = "res:"@ + decimal(info.width as nat) + "x"@ + decimal(info.height as nat);
    let w3 = "hz:"@ + whole_text(info.hz);
    let w4 = "color_depth:"@ + decimal(info.depth as nat);
    let w5 = scaling_word(info.scaling);
    let w6 = "origin:("@ + signed_decimal(info.x as int) + ","@ + signed_decimal(info.y as int)
        + ")"@;
    let w7 = "degree:"@ + decimal(info.rotation as nat);
    let w9 = enabled_word(info.enabled);
    let c1 = DisplayConfigView { id: info.persistent_id, ..blank };
    let c2 = DisplayConfigView { resolution: Some((info.width, info.height)), ..c1 };
    let c3 = DisplayConfigView {
        hz: Some(Hertz { millis: (round_half_even(info.hz.millis as nat, 1000) * 1000) as u32 }),
        ..c2
    };
    let c4 = DisplayConfigView { color_depth: Some(info.depth), ..c3 };
    let c5 = DisplayConfigView { scaling: Some(info.scaling), ..c4 };
    let c6 = DisplayConfigView { origin: Some((info.x, info.y)), ..c5 };
    let c7 = DisplayConfigView { degree: Some(info.rotation), ..c6 };
    lemma_read_one_more(blank, none, w1);
    lemma_id_token(blank, info.persistent_id);
    let d1 = none.push(w1);
    lemma_read_one_more(blank, d1, w2);
    lemma_res_token(c1, info.width, info.height);
    let d2 = d1.push(w2);
    lemma_read_one_more(blank, d2, w3);
    lemma_hz_token(c2, info.hz);
    let d3 = d2.push(w3);
    lemma_read_one_more(blank, d3, w4);
    lemma_depth_token(c3, info.depth);
    let d4 = d3.push(w4);
    lemma_read_one_more(blank, d4, w5);
    lemma_scaling_token(c4, info.scaling);
    let d5 = d4.push(w5);
    lemma_read_one_more(blank, d5, w6);
    lemma_origin_token(c5, info.x, info.y);
    let d6 = d5.push(w6);
    lemma_read_one_more(blank, d6, w7);
    lemma_degree_token(c6, info.rotation);
    let d7 = d6.push(w7);
    assert(read_tokens(blank, d7) == Ok::<DisplayConfigView, DisplayErrorView>(c7));
    match info.mirror_of {
        Some(target) => {
            let w8 = "mirror:"@ + decimal(target as nat);
            let c8 = DisplayConfigView { mirror: Some(decimal(target as nat)), ..c7 };
            lemma_read_one_more(blank, d7, w8);
            lemma_mirror_token(c7, target);
            lemma_read_one_more(blank, d7.push(w8), w9);
            lemma_enabled_token(c8, info.enabled);
        },
        None => {
            lemma_read_one_more(blank, d7, w9);
            lemma_enabled_token(c7, info.enabled);
        },
    }
}

/// The command that is listed for a display, read as a configuration
/// string, is the request for the settings that were listed, provided that
/// the persistent identifier of the display is not empty and holds no whitespace.
pub proof fn lemma_command_restores_display(info: DisplayInfoView)
    requires
        plain(info.persistent_id),
    ensures
        parse_config_spec(command_text(info)) == Ok::<DisplayConfigView, DisplayErrorView>(
            command_request(info),
        ),
{
    lemma_command_words(info);
    lemma_command_words_read(info);
}

} // verus!
