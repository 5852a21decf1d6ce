//! Parsing of configuration strings.
//!
//! A configuration string is a run of `key:value` tokens that whitespace
//! separates. A token without a colon is passed over. A value that cannot be
//! read leaves its field unset; a key that is not known is an error.

use crate::error::{DisplayError, DisplayErrorView};
use crate::hertz::{parse_hertz, parse_hertz_spec};
use crate::model::{config_views, DisplayConfig, DisplayConfigView};
use crate::number::{
    parse_bool, parse_bool_spec, parse_i32, parse_i32_spec, parse_u32, parse_u32_spec,
};
use crate::text::{
    chars_of, find_char, is_text, lemma_trim_parens_idempotent, split_once, strip_parens,
    trim_parens, word_bounds, words,
};
use vstd::prelude::*;
use vstd::slice::slice_subrange;

verus! {

/// The resolution that `value` writes: two unsigned numbers with an `x` between them.
pub open spec fn parse_resolution_spec(value: Seq<char>) -> Option<(u32, u32)> {
    match split_once(value, 'x') {
        Some((width, height)) => match (parse_u32_spec(width), parse_u32_spec(height)) {
            (Some(w), Some(h)) => Some((w, h)),
            _ => None,
        },
        None => None,
    }
}

/// The position that `value` writes: two signed numbers with a comma
/// between them, with or without parentheses around the whole.
pub open spec fn parse_origin_spec(value: Seq<char>) -> Option<(i32, i32)> {
    match split_once(trim_parens(value), ',') {
        Some((x, y)) => match (parse_i32_spec(x), parse_i32_spec(y)) {
            (Some(x), Some(y)) => Some((x, y)),
            _ => None,
        },
        None => None,
    }
}

/// A position reads the same with and without the parentheses around it.
pub proof fn lemma_origin_ignores_parentheses(value: Seq<char>)
    ensures
        parse_origin_spec(trim_parens(value)) == parse_origin_spec(value),
{
    lemma_trim_parens_idempotent(value);
}

/// `config` after the field `key` was given `value`; an error where `key` is not known.
pub open spec fn set_field(config: DisplayConfigView, key: Seq<char>, value: Seq<char>) -> Result<
    DisplayConfigView,
    DisplayErrorView,
> {
    if key == "id"@ {
        Ok(DisplayConfigView { id: value, ..config })
    } else if key == "mode"@ {
        Ok(DisplayConfigView { mode: Some(value), ..config })
    } else if key == "res"@ {
        match parse_resolution_spec(value) {
            Some(size) => Ok(DisplayConfigView { resolution: Some(size), ..config }),
            None => Ok(config),
        }
    } else if key == "hz"@ {
        Ok(DisplayConfigView { hz: parse_hertz_spec(value), ..config })
    } else if key == "color_depth"@ {
        Ok(DisplayConfigView { color_depth: parse_u32_spec(value), ..config })
    } else if key == "scaling"@ {
        Ok(DisplayConfigView { scaling: Some(value == "on"@), ..config })
    } else if key == "origin"@ {
        match parse_origin_spec(value) {
            Some(place) => Ok(DisplayConfigView { origin: Some(place), ..config }),
            None => Ok(config),
        }
    } else if key == "degree"@ {
        Ok(DisplayConfigView { degree: parse_u32_spec(value), ..config })
    } else if key == "mirror"@ {
        Ok(DisplayConfigView { mirror: Some(value), ..config })
    } else if key == "enabled"@ {
        Ok(DisplayConfigView { enabled: parse_bool_spec(value), ..config })
    } else {
        Err(DisplayErrorView::InvalidConfig(key))
    }
}

/// `config` after one token was read. A token without a colon changes nothing.
pub open spec fn read_token(config: DisplayConfigView, token: Seq<char>) -> Result<
    DisplayConfigView,
    DisplayErrorView,
> {
    match split_once(token, ':') {
        Some((key, value)) => set_field(config, key, value),
        None => Ok(config),
    }
}

/// `config` after the tokens were read from first to last; the error of the
/// first token that has one.
pub open spec fn read_tokens(config: DisplayConfigView, tokens: Seq<Seq<char>>) -> Result<
    DisplayConfigView,
    DisplayErrorView,
>
    decreases tokens.len(),
{
    if tokens.len() == 0 {
        Ok(config)
    } else {
        match read_tokens(config, tokens.drop_last()) {
            Ok(read) => read_token(read, tokens.last()),
            Err(error) => Err(error),
        }
    }
}

/// The request that `text` writes.
pub open spec fn parse_config_spec(text: Seq<char>) -> Result<DisplayConfigView, DisplayErrorView> {
    match read_tokens(DisplayConfigView::blank(), words(text)) {
        Ok(config) => if config.id.len() == 0 {
            Err(DisplayErrorView::MissingIdentifier)
        } else {
            Ok(config)
        },
        Err(error) => Err(error),
    }
}

/// The values of the strings of `texts`, in order.
pub open spec fn text_views(texts: Seq<String>) -> Seq<Seq<char>> {
    Seq::new(texts.len(), |i: int| texts[i]@)
}

/// The requests that the strings of `texts` write, in order; the error of
/// the first string that has one.
pub open spec fn parse_batch_spec(texts: Seq<Seq<char>>) -> Result<
    Seq<DisplayConfigView>,
    DisplayErrorView,
>
    decreases texts.len(),
{
    if texts.len() == 0 {
        Ok(Seq::empty())
    } else {
        match parse_batch_spec(texts.drop_last()) {
            Ok(configs) => match parse_config_spec(texts.last()) {
                Ok(config) => Ok(configs.push(config)),
                Err(error) => Err(error),
            },
            Err(error) => Err(error),
        }
    }
}

/// Where the first `n` strings of a batch do not parse, the batch fails as they do.
pub proof fn lemma_parse_batch_fails(texts: Seq<Seq<char>>, n: int)
    requires
        0 <= n <= texts.len(),
        parse_batch_spec(texts.take(n)) is Err,
    ensures
        parse_batch_spec(texts) == parse_batch_spec(texts.take(n)),
    decreases texts.len() - n,
{
    if n == texts.len() {
        assert(texts.take(n) =~= texts);
    } else {
        assert(texts.drop_last().take(n) =~= texts.take(n));
        lemma_parse_batch_fails(texts.drop_last(), n);
    }
}

/// Whether `token` gives the key `id` a value that is not empty.
pub open spec fn names_display(token: Seq<char>) -> bool {
    match split_once(token, ':') {
        Some((key, value)) => key == "id"@ && value.len() > 0,
        None => false,
    }
}

/// Whether `token` gives the key `id` the empty value.
pub open spec fn clears_display(token: Seq<char>) -> bool {
    match split_once(token, ':') {
        Some((key, value)) => key == "id"@ && value.len() == 0,
        None => false,
    }
}

/// Reading a token that does not clear the identifier leaves a set identifier set.
proof fn lemma_identifier_stays(config: DisplayConfigView, token: Seq<char>)
    requires
        config.id.len() > 0 || names_display(token),
        !clears_display(token),
    ensures
        read_token(config, token) matches Ok(read) ==> read.id.len() > 0,
{
    reveal_strlit("id");
    reveal_strlit("mode");
    reveal_strlit("res");
    reveal_strlit("hz");
    reveal_strlit("color_depth");
    reveal_strlit("scaling");
    reveal_strlit("origin");
    reveal_strlit("degree");
    reveal_strlit("mirror");
    reveal_strlit("enabled");
    match split_once(token, ':') {
        Some((key, value)) => {
            if key == "id"@ {
            } else {
                assert("mode"@.len() == 4 && "res"@.len() == 3 && "hz"@[0] == 'h');
                assert("color_depth"@.len() == 11 && "scaling"@.len() == 7 && "origin"@.len() == 6);
                assert("degree"@.len() == 6 && "mirror"@.len() == 6 && "enabled"@.len() == 7);
                assert("id"@.len() == 2 && "id"@[0] == 'i');
            }
        },
        None => {},
    }
}

/// After a token that names a display, with no later token that clears the
/// identifier, the identifier is set unless reading failed.
proof fn lemma_identifier_survives(tokens: Seq<Seq<char>>, at: int)
    requires
        0 <= at < tokens.len(),
        names_display(tokens[at]),
        forall|j: int| at < j < tokens.len() ==> !clears_display(#[trigger] tokens[j]),
    ensures
        read_tokens(DisplayConfigView::blank(), tokens) matches Ok(read) ==> read.id.len() > 0,
    decreases tokens.len(),
{
    let before = tokens.drop_last();
    match read_tokens(DisplayConfigView::blank(), before) {
        Ok(read) => {
            if at < tokens.len() - 1 {
                assert(before[at] == tokens[at]);
                assert forall|j: int| at < j < before.len() implies !clears_display(
                    #[trigger] before[j],
                ) by {
                    assert(before[j] == tokens[j]);
                }
                lemma_identifier_survives(before, at);
                assert(!clears_display(tokens[tokens.len() - 1]));
            }
            lemma_identifier_stays(read, tokens.last());
        },
        Err(_) => {},
    }
}

/// A string with a token that names a display, and no later token that
/// takes the name away again, never fails for want of an identifier.
pub proof fn lemma_named_display_is_found(text: Seq<char>, at: int)
    requires
        0 <= at < words(text).len(),
        names_display(words(text)[at]),
        forall|j: int| at < j < words(text).len() ==> !clears_display(#[trigger] words(text)[j]),
    ensures
        parse_config_spec(text) != Err::<DisplayConfigView, DisplayErrorView>(
            DisplayErrorView::MissingIdentifier,
        ),
{
    lemma_identifier_survives(words(text), at);
    lemma_only_unknown_keys_fail(DisplayConfigView::blank(), words(text));
}

/// Reading tokens fails for an unknown key and for nothing else.
pub proof fn lemma_only_unknown_keys_fail(config: DisplayConfigView, tokens: Seq<Seq<char>>)
    ensures
        read_tokens(config, tokens) matches Err(error) ==> error is InvalidConfig,
    decreases tokens.len(),
{
    if tokens.len() > 0 {
        lemma_only_unknown_keys_fail(config, tokens.drop_last());
    }
}

/// Reads `value` as a resolution.
fn parse_resolution(value: &[char]) -> (size: Option<(u32, u32)>)
    ensures
        size == parse_resolution_spec(value@),
{
    let at: usize = find_char(value, 'x');
    if at >= value.len() {
        return None;
    }
    let width = slice_subrange(value, 0, at);
    let height = slice_subrange(value, at + 1, value.len());
    assert(width@ =~= value@.take(at as int));
    assert(height@ =~= value@.skip(at + 1));
    match (parse_u32(width), parse_u32(height)) {
        (Some(w), Some(h)) => Some((w, h)),
        _ => None,
    }
}

/// Reads `value` as a position.
fn parse_origin(value: &[char]) -> (place: Option<(i32, i32)>)
    ensures
        place == parse_origin_spec(value@),
{
    let inner = strip_parens(value);
    let at: usize = find_char(inner, ',');
    if at >= inner.len() {
        return None;
    }
    let x = slice_subrange(inner, 0, at);
    let y = slice_subrange(inner, at + 1, inner.len());
    assert(x@ =~= inner@.take(at as int));
    assert(y@ =~= inner@.skip(at + 1));
    match (parse_i32(x), parse_i32(y)) {
        (Some(x), Some(y)) => Some((x, y)),
        _ => None,
    }
}

/// Gives the field `key` of `config` the value that stands in `text` from
/// `from` to `to`; `chars` holds the characters of `text`.
fn assign(
    config: &mut DisplayConfig,
    text: &str,
    chars: &[char],
    key_from: usize,
    from: usize,
    to: usize,
) -> (done: Result<(), DisplayError>)
    requires
        chars@ == text@,
        key_from < from <= to <= chars.len(),
    ensures
        match done {
            Ok(_) => set_field(
                old(config)@,
                text@.subrange(key_from as int, from - 1),
                text@.subrange(from as int, to as int),
            ) == Ok::<DisplayConfigView, DisplayErrorView>(final(config)@),
            Err(error) => set_field(
                old(config)@,
                text@.subrange(key_from as int, from - 1),
                text@.subrange(from as int, to as int),
            ) == Err::<DisplayConfigView, DisplayErrorView>(error@),
        },
{
    let key = slice_subrange(chars, key_from, from - 1);
    let value = slice_subrange(chars, from, to);
    if is_text(key, "id") {
        config.id = text.substring_char(from, to).to_owned();
    } else if is_text(key, "mode") {
        config.mode = Some(text.substring_char(from, to).to_owned());
    } else if is_text(key, "res") {
        match parse_resolution(value) {
            Some(size) => {
                config.resolution = Some(size);
            },
            None => {},
        }
    } else if is_text(key, "hz") {
        config.hz = parse_hertz(value);
    } else if is_text(key, "color_depth") {
        config.color_depth = parse_u32(value);
    } else if is_text(key, "scaling") {
        config.scaling = Some(is_text(value, "on"));
    } else if is_text(key, "origin") {
        match parse_origin(value) {
            Some(place) => {
                config.origin = Some(place);
            },
            None => {},
        }
    } else if is_text(key, "degree") {
        config.degree = parse_u32(value);
    } else if is_text(key, "mirror") {
        config.mirror = Some(text.substring_char(from, to).to_owned());
    } else if is_text(key, "enabled") {
        config.enabled = parse_bool(value);
    } else {
        return Err(DisplayError::InvalidConfig(text.substring_char(key_from, from - 1).to_owned()));
    }
    Ok(())
}

/// Reads a configuration string.
pub fn parse_config(config_str: &str) -> (parsed: Result<DisplayConfig, DisplayError>)
    ensures
        match parsed {
            Ok(config) => parse_config_spec(config_str@) == Ok::<
                DisplayConfigView,
                DisplayErrorView,
            >(config@),
            Err(error) => parse_config_spec(config_str@) == Err::<
                DisplayConfigView,
                DisplayErrorView,
            >(error@),
        },
{
    let chars = chars_of(config_str);
    let bounds = word_bounds(chars.as_slice());
    let mut config = DisplayConfig::blank();
    let ghost tokens = words(config_str@);
    let mut k: usize = 0;
    assert(tokens.take(0) =~= Seq::<Seq<char>>::empty());
    while k < bounds.len()
        invariant
            k <= bounds.len(),
            chars@ == config_str@,
            tokens == words(config_str@),
            bounds.len() == tokens.len(),
            forall|n: int|
                0 <= n < bounds.len() ==> {
                    &&& (#[trigger] bounds[n]).0 <= bounds[n].1 <= chars.len()
                    &&& chars@.subrange(bounds[n].0 as int, bounds[n].1 as int) == tokens[n]
                },
            read_tokens(DisplayConfigView::blank(), tokens.take(k as int)) == Ok::<
                DisplayConfigView,
                DisplayErrorView,
            >(config@),
        decreases bounds.len() - k,
    {
        let (from, to) = bounds[k];
        let token = slice_subrange(chars.as_slice(), from, to);
        let colon: usize = find_char(token, ':');
        proof {
            assert(tokens.take(k + 1).drop_last() =~= tokens.take(k as int));
            assert(tokens.take(k + 1).last() == tokens[k as int]);
            assert(token@ == tokens[k as int]);
        }
        if colon < token.len() {
            proof {
                assert(token@.take(colon as int) =~= config_str@.subrange(
                    from as int,
                    from + colon,
                ));
                assert(token@.skip(colon + 1) =~= config_str@.subrange(
                    from + colon + 1,
                    to as int,
                ));
            }
            match assign(&mut config, config_str, chars.as_slice(), from, from + colon + 1, to) {
                Ok(_) => {},
                Err(error) => {
                    proof {
                        lemma_read_tokens_fails(
                            DisplayConfigView::blank(),
                            tokens,
                            k + 1,
                        );
                    }
                    return Err(error);
                },
            }
        }
        k += 1;
    }
    assert(tokens.take(k as int) =~= tokens);
    if config.id.as_str().unicode_len() == 0 {
        return Err(DisplayError::MissingIdentifier);
    }
    Ok(config)
}

/// Reads a batch of configuration strings. The first string that does not
/// parse ends the reading, and its error is the result.
pub fn parse_batch(texts: &Vec<String>) -> (parsed: Result<Vec<DisplayConfig>, DisplayError>)
    ensures
        match parsed {
            Ok(configs) => parse_batch_spec(text_views(texts@)) == Ok::<
                Seq<DisplayConfigView>,
                DisplayErrorView,
            >(config_views(configs@)),
            Err(error) => parse_batch_spec(text_views(texts@)) == Err::<
                Seq<DisplayConfigView>,
                DisplayErrorView,
            >(error@),
        },
{
    let ghost all = text_views(texts@);
    let mut configs: Vec<DisplayConfig> = Vec::new();
    let mut i: usize = 0;
    assert(all.take(0) =~= Seq::<Seq<char>>::empty());
    assert(config_views(configs@) =~= Seq::<DisplayConfigView>::empty());
    while i < texts.len()
        invariant
            i <= texts.len(),
            all == text_views(texts@),
            parse_batch_spec(all.take(i as int)) == Ok::<Seq<DisplayConfigView>, DisplayErrorView>(
                config_views(configs@),
            ),
        decreases texts.len() - i,
    {
        proof {
            assert(all.take(i + 1).drop_last() =~= all.take(i as int));
            assert(all.take(i + 1).last() == texts@[i as int]@);
        }
        let ghost before = config_views(configs@);
        match parse_config(texts[i].as_str()) {
            Ok(config) => {
                configs.push(config);
                assert(config_views(configs@) =~= before.push(config@));
            },
            Err(error) => {
                proof {
                    lemma_parse_batch_fails(all, i + 1);
                }
                return Err(error);
            },
        }
        i += 1;
    }
    assert(all.take(i as int) =~= all);
    Ok(configs)
}

/// Where reading the first `n` tokens fails, reading all of them fails alike.
pub proof fn lemma_read_tokens_fails(config: DisplayConfigView, tokens: Seq<Seq<char>>, n: int)
    requires
        0 <= n <= tokens.len(),
        read_tokens(config, tokens.take(n)) is Err,
    ensures
        read_tokens(config, tokens) == read_tokens(config, tokens.take(n)),
    decreases tokens.len() - n,
{
    if n == tokens.len() {
        assert(tokens.take(n) =~= tokens);
    } else {
        assert(tokens.drop_last().take(n) =~= tokens.take(n));
        lemma_read_tokens_fails(config, tokens.drop_last(), n);
    }
}

} // verus!
