//! Parsing of the user's `-o` string into mpv init-time options and runtime properties.
use vstd::prelude::*;

use crate::error::{AppError, AppErrorView, Result};
use crate::text::{
    all_whitespace, concat3, find_char, first_index_of, is_blank, own, seq_starts_with,
    starts_with, str_eq, strings_view,
};

verus! {

/// A `(name, value)` pair as text.
pub type OptionPair = (Seq<char>, Seq<char>);

/// The text of a list of owned `(name, value)` pairs.
pub open spec fn pairs_view(v: Seq<(String, String)>) -> Seq<OptionPair> {
    v.map_values(|p: (String, String)| (p.0@, p.1@))
}

/// Parsed user options separated into init-time and runtime
pub struct ParsedMpvOptions {
    /// Options to set before initialization (init.set_option)
    pub init_options: Vec<(String, String)>,
    /// Properties to set after initialization (mpv.set_property)
    pub runtime_properties: Vec<(String, String)>,
}

impl View for ParsedMpvOptions {
    type V = (Seq<OptionPair>, Seq<OptionPair>);

    open spec fn view(&self) -> (Seq<OptionPair>, Seq<OptionPair>) {
        (pairs_view(self.init_options@), pairs_view(self.runtime_properties@))
    }
}

impl ParsedMpvOptions {
    /// No options of either kind.
    pub fn empty() -> (r: Self)
        ensures
            r@.0 == Seq::<OptionPair>::empty(),
            r@.1 == Seq::<OptionPair>::empty(),
    {
        let r = ParsedMpvOptions { init_options: Vec::new(), runtime_properties: Vec::new() };
        assert(r@.0 =~= Seq::<OptionPair>::empty());
        assert(r@.1 =~= Seq::<OptionPair>::empty());
        r
    }
}

/// The options that mpv accepts only before initialization: the ones that the
/// libmpv2 documentation names (configuration, input, scripts, player mode and
/// all encoding options) and the ones found to be init-only in practice.
pub open spec fn is_init_only(key: Seq<char>) -> bool {
    key == "config"@ || key == "config-dir"@ || key == "input-conf"@ || key == "load-scripts"@
        || key == "script"@ || key == "player-operation-mode"@ || key == "input-app-events"@
        || key == "ovc"@ || key == "oac"@ || key == "of"@ || key == "ofopts"@ || key == "ofps"@
        || key == "oautofps"@ || key == "oharddup"@ || key == "ocopyts"@ || key == "orawts"@
        || key == "oneverdrop"@ || key == "vo"@ || key == "background"@ || key == "terminal"@
        || key == "input-default-bindings"@ || key == "input-terminal"@
}

/// Check if an option is init-only
pub fn is_init_only_option(key: &str) -> (r: bool)
    ensures
        r == is_init_only(key@),
{
    str_eq(key, "config") || str_eq(key, "config-dir") || str_eq(key, "input-conf")
        || str_eq(key, "load-scripts") || str_eq(key, "script")
        || str_eq(key, "player-operation-mode") || str_eq(key, "input-app-events")
        || str_eq(key, "ovc") || str_eq(key, "oac") || str_eq(key, "of")
        || str_eq(key, "ofopts") || str_eq(key, "ofps") || str_eq(key, "oautofps")
        || str_eq(key, "oharddup") || str_eq(key, "ocopyts") || str_eq(key, "orawts")
        || str_eq(key, "oneverdrop") || str_eq(key, "vo") || str_eq(key, "background")
        || str_eq(key, "terminal") || str_eq(key, "input-default-bindings")
        || str_eq(key, "input-terminal")
}

/// The `(name, value)` pair meant by the text after `--`:
/// `name=value` splits at the first `=`; otherwise `no-name` means `name=no`
/// and a bare `name` means `name=yes`.
pub open spec fn option_pair(body: Seq<char>) -> OptionPair {
    match first_index_of(body, '=') {
        Some(p) => (body.take(p), body.skip(p + 1)),
        None => if seq_starts_with(body, "no-"@) {
            (body.skip(3), "no"@)
        } else {
            (body, "yes"@)
        },
    }
}

/// Error text for a word that starts with a single dash.
pub open spec fn bad_format_message(word: Seq<char>) -> Seq<char> {
    "Invalid mpv option format '"@ + word + "': use --option=value format"@
}

/// Error text for a word that does not start with a dash.
pub open spec fn unexpected_value_message(word: Seq<char>) -> Seq<char> {
    "Unexpected value '"@ + word + "': use --option=value format (not --option value)"@
}

/// Sorting of shell words into init-time options and runtime properties, in
/// order; the first word that is not of the form `--...` makes the whole
/// sorting fail with its error text.
pub open spec fn classify_words(words: Seq<Seq<char>>) -> std::result::Result<
    (Seq<OptionPair>, Seq<OptionPair>),
    Seq<char>,
>
    decreases words.len(),
{
    if words.len() == 0 {
        Ok((Seq::empty(), Seq::empty()))
    } else {
        match classify_words(words.drop_last()) {
            Err(m) => Err(m),
            Ok((init, runtime)) => {
                let w = words.last();
                if seq_starts_with(w, "--"@) {
                    let pair = option_pair(w.skip(2));
                    if is_init_only(pair.0) {
                        Ok((init.push(pair), runtime))
                    } else {
                        Ok((init, runtime.push(pair)))
                    }
                } else if seq_starts_with(w, "-"@) {
                    Err(bad_format_message(w))
                } else {
                    Err(unexpected_value_message(w))
                }
            },
        }
    }
}

/// What a sorting outcome becomes as a result of the library.
pub open spec fn classified_result(
    c: std::result::Result<(Seq<OptionPair>, Seq<OptionPair>), Seq<char>>,
    r: Result<ParsedMpvOptions>,
) -> bool {
    match c {
        Ok(v) => r matches Ok(p) && p@ == v,
        Err(m) => r matches Err(e) && e@ == AppErrorView::Config(m),
    }
}

/// What parsing the user's `-o` text gives: no options for blank text; for
/// other text, an error when its shell-style split fails (unmatched quotes),
/// else the classification of its words.
pub open spec fn user_options_outcome(options: Seq<char>, r: Result<ParsedMpvOptions>) -> bool {
    &&& all_whitespace(options) ==> (r matches Ok(p) && p@.0.len() == 0 && p@.1.len() == 0)
    &&& !all_whitespace(options) ==> match shlex_words(options) {
        None => r matches Err(e) && e@ == AppErrorView::Config(unmatched_quotes_message()),
        Some(words) => classified_result(classify_words(words), r),
    }
}

/// The `(name, value)` pair for one word that starts with `--`.
fn split_option_word(word: &str) -> (r: (String, String))
    requires
        seq_starts_with(word@, "--"@),
    ensures
        (r.0@, r.1@) == option_pair(word@.skip(2)),
{
    proof {
        reveal_strlit("--");
        reveal_strlit("no-");
    }
    let n = word.unicode_len();
    let body = word.substring_char(2, n);
    assert(body@ == word@.skip(2));
    let m = body.unicode_len();
    match find_char(body, '=') {
        Some(p) => {
            let k = body.substring_char(0, p);
            let v = body.substring_char(p + 1, m);
            assert(k@ == body@.take(p as int));
            assert(v@ == body@.skip(p + 1));
            (own(k), own(v))
        },
        None => {
            if starts_with(body, "no-") {
                let k = body.substring_char(3, m);
                assert(k@ == body@.skip(3));
                (own(k), own("no"))
            } else {
                (own(body), own("yes"))
            }
        },
    }
}

/// Sort shell words into init-time options and runtime properties.
///
/// `--name=value`, `--no-name` and `--name` are accepted; the first word that
/// starts with a single dash, or with no dash at all, is an error.
pub fn classify_mpv_options(words: &Vec<String>) -> (r: Result<ParsedMpvOptions>)
    ensures
        classified_result(classify_words(strings_view(words@)), r),
{
    let ghost all = strings_view(words@);
    let mut result = ParsedMpvOptions::empty();
    let mut i: usize = 0;
    assert(all.take(0) =~= Seq::<Seq<char>>::empty());
    while i < words.len()
        invariant
            i <= words.len(),
            all == strings_view(words@),
            classify_words(all.take(i as int)) == Ok::<_, Seq<char>>(result@),
        decreases words.len() - i,
    {
        let word = words[i].as_str();
        let ghost prefix = all.take(i as int);
        assert(all.take(i + 1).drop_last() == prefix);
        assert(all.take(i + 1).last() == word@);
        if starts_with(word, "--") {
            let (key, value) = split_option_word(word);
            if is_init_only_option(key.as_str()) {
                result.init_options.push((key, value));
            } else {
                result.runtime_properties.push((key, value));
            }
            assert(result@ == classify_words(all.take(i + 1))->Ok_0);
        } else {
            proof {
                lemma_error_persists(all, i as int + 1);
            }
            if starts_with(word, "-") {
                return Err(AppError::Config(concat3(
                    "Invalid mpv option format '",
                    word,
                    "': use --option=value format",
                )));
            } else {
                return Err(AppError::Config(concat3(
                    "Unexpected value '",
                    word,
                    "': use --option=value format (not --option value)",
                )));
            }
        }
        i = i + 1;
    }
    assert(all.take(i as int) == all);
    Ok(result)
}

/// Once a prefix of the words fails to sort, every longer prefix fails with the same text.
proof fn lemma_error_persists(words: Seq<Seq<char>>, k: int)
    requires
        0 <= k <= words.len(),
        classify_words(words.take(k)) is Err,
    ensures
        classify_words(words) == classify_words(words.take(k)),
    decreases words.len() - k,
{
    if k < words.len() {
        assert(words.take(k + 1).drop_last() == words.take(k));
        lemma_error_persists(words, k + 1);
    } else {
        assert(words.take(k) == words);
    }
}

/// The words that `shlex::split` makes of a text, or `None` when the text is
/// not well-formed shell syntax (an unmatched quote, a trailing backslash).
pub uninterp spec fn shlex_words(input: Seq<char>) -> Option<Seq<Seq<char>>>;

/// Calls `shlex::split`, which splits a text into words as a POSIX shell does.
/// Its contract claims only that the outcome is the named one for this text.
#[verifier::external_body]
fn shlex_split(input: &str) -> (r: Option<Vec<String>>)
    ensures
        r is None <==> shlex_words(input@) is None,
        r matches Some(words) ==> shlex_words(input@) == Some(strings_view(words@)),
{
    shlex::split(input)
}

/// Error text for input that the shell splitter rejects.
pub open spec fn unmatched_quotes_message() -> Seq<char> {
    "Invalid mpv options: unmatched quotes"@
}

/// Parse user options string into init-time and runtime options
///
/// Blank input gives no options; otherwise the input is split into shell
/// words and the words are sorted by [`classify_mpv_options`].
pub fn parse_user_options(options: &str) -> (r: Result<ParsedMpvOptions>)
    ensures
        user_options_outcome(options@, r),
{
    if is_blank(options) {
        return Ok(ParsedMpvOptions::empty());
    }
    match shlex_split(options) {
        None => Err(AppError::Config(own("Invalid mpv options: unmatched quotes"))),
        Some(words) => classify_mpv_options(&words),
    }
}

} // verus!

verus! {

/// Every option lands in the list of its kind: each word of a successful
/// sorting gives one pair, the init-time list holds only init-only options
/// and the runtime list none of them.
pub proof fn law_options_sorted_by_kind(words: Seq<Seq<char>>)
    ensures
        classify_words(words) matches Ok((init, runtime)) ==> {
            &&& init.len() + runtime.len() == words.len()
            &&& forall|i: int| 0 <= i < init.len() ==> is_init_only(#[trigger] init[i].0)
            &&& forall|j: int| 0 <= j < runtime.len() ==> !is_init_only(#[trigger] runtime[j].0)
        },
    decreases words.len(),
{
    if words.len() > 0 {
        law_options_sorted_by_kind(words.drop_last());
        match classify_words(words.drop_last()) {
            Ok((init, runtime)) => {
                let w = words.last();
                if seq_starts_with(w, "--"@) {
                    let pair = option_pair(w.skip(2));
                    if is_init_only(pair.0) {
                        assert forall|i: int| 0 <= i < init.push(pair).len() implies is_init_only(
                            #[trigger] init.push(pair)[i].0,
                        ) by {
                            if i < init.len() {
                                assert(init.push(pair)[i] == init[i]);
                            }
                        }
                    } else {
                        assert forall|j: int| 0 <= j < runtime.push(pair).len() implies !is_init_only(
                            #[trigger] runtime.push(pair)[j].0,
                        ) by {
                            if j < runtime.len() {
                                assert(runtime.push(pair)[j] == runtime[j]);
                            }
                        }
                    }
                }
            },
            Err(_) => {},
        }
    }
}

} // verus!

verus! {

/// The options mpv takes only before initialisation, as documented: the
/// configuration, input, script and player-mode options, all encoding
/// options, and the video output, background, terminal and input options.
pub open spec fn documented_init_only_keys() -> Seq<Seq<char>> {
    seq![
        "config"@,
        "config-dir"@,
        "input-conf"@,
        "load-scripts"@,
        "script"@,
        "player-operation-mode"@,
        "input-app-events"@,
        "ovc"@,
        "oac"@,
        "of"@,
        "ofopts"@,
        "ofps"@,
        "oautofps"@,
        "oharddup"@,
        "ocopyts"@,
        "orawts"@,
        "oneverdrop"@,
        "vo"@,
        "background"@,
        "terminal"@,
        "input-default-bindings"@,
        "input-terminal"@,
    ]
}

/// `--key=value`, for a key without `=`, is the pair `(key, value)`: it
/// goes to the init-time options exactly when the key is one of the
/// documented init-only options, and to the runtime properties otherwise.
pub proof fn law_init_only_keys_go_to_init(key: Seq<char>, value: Seq<char>)
    requires
        forall|i: int| 0 <= i < key.len() ==> key[i] != '=',
    ensures
        classify_words(seq!["--"@ + key + "="@ + value]) == if documented_init_only_keys().contains(key) {
            Ok::<(Seq<OptionPair>, Seq<OptionPair>), Seq<char>>((seq![(key, value)], Seq::empty()))
        } else {
            Ok::<(Seq<OptionPair>, Seq<OptionPair>), Seq<char>>((Seq::empty(), seq![(key, value)]))
        },
{
    reveal_strlit("--");
    reveal_strlit("=");
    let w = "--"@ + key + "="@ + value;
    let words = seq![w];
    assert(words.drop_last() =~= Seq::<Seq<char>>::empty());
    assert(words.last() == w);
    assert(w.subrange(0, 2) =~= "--"@);
    assert(seq_starts_with(w, "--"@));
    let body = w.skip(2);
    assert(body =~= key + seq!['='] + value);
    crate::text::lemma_first_index_after(key, '=', value);
    assert(body.take(key.len() as int) =~= key);
    assert(body.skip(key.len() as int + 1) =~= value);
    assert(option_pair(body) == (key, value));
    let ks = documented_init_only_keys();
    reveal_strlit("config");
    reveal_strlit("config-dir");
    reveal_strlit("input-conf");
    reveal_strlit("load-scripts");
    reveal_strlit("script");
    reveal_strlit("player-operation-mode");
    reveal_strlit("input-app-events");
    reveal_strlit("ovc");
    reveal_strlit("oac");
    reveal_strlit("of");
    reveal_strlit("ofopts");
    reveal_strlit("ofps");
    reveal_strlit("oautofps");
    reveal_strlit("oharddup");
    reveal_strlit("ocopyts");
    reveal_strlit("orawts");
    reveal_strlit("oneverdrop");
    reveal_strlit("vo");
    reveal_strlit("background");
    reveal_strlit("terminal");
    reveal_strlit("input-default-bindings");
    reveal_strlit("input-terminal");
    assert(ks.contains(key) <==> is_init_only(key)) by {
        if is_init_only(key) {
            if key == "config"@ { assert(ks[0] == key); }
            else if key == "config-dir"@ { assert(ks[1] == key); }
            else if key == "input-conf"@ { assert(ks[2] == key); }
            else if key == "load-scripts"@ { assert(ks[3] == key); }
            else if key == "script"@ { assert(ks[4] == key); }
            else if key == "player-operation-mode"@ { assert(ks[5] == key); }
            else if key == "input-app-events"@ { assert(ks[6] == key); }
            else if key == "ovc"@ { assert(ks[7] == key); }
            else if key == "oac"@ { assert(ks[8] == key); }
            else if key == "of"@ { assert(ks[9] == key); }
            else if key == "ofopts"@ { assert(ks[10] == key); }
            else if key == "ofps"@ { assert(ks[11] == key); }
            else if key == "oautofps"@ { assert(ks[12] == key); }
            else if key == "oharddup"@ { assert(ks[13] == key); }
            else if key == "ocopyts"@ { assert(ks[14] == key); }
            else if key == "orawts"@ { assert(ks[15] == key); }
            else if key == "oneverdrop"@ { assert(ks[16] == key); }
            else if key == "vo"@ { assert(ks[17] == key); }
            else if key == "background"@ { assert(ks[18] == key); }
            else if key == "terminal"@ { assert(ks[19] == key); }
            else if key == "input-default-bindings"@ { assert(ks[20] == key); }
            else { assert(ks[21] == key); }
        }
        if ks.contains(key) {
            let i = choose|i: int| 0 <= i < ks.len() && ks[i] == key;
            assert(0 <= i < 22);
        }
    }
    assert(classify_words(words.drop_last()) == Ok::<(Seq<OptionPair>, Seq<OptionPair>), Seq<char>>(
        (Seq::empty(), Seq::empty()),
    ));
    assert(Seq::<OptionPair>::empty().push((key, value)) =~= seq![(key, value)]);
}

} // verus!
