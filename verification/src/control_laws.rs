//! What holds of the control protocol as a whole.

use crate::control;
use crate::control::{
    CommandView, ControlError, ControlErrorView, ControlReply, OptionsView, RecordCommand,
    RecorderState, TranscribeOptions,
};
use crate::text;
use crate::text_laws;
use vstd::prelude::*;
use vstd::utf8::*;

verus! {

/// The language of the options, if they give one, holds no white space.
pub open spec fn sendable_options(opts: OptionsView) -> bool {
    opts.lang matches Some(lang) ==> text::unspaced(lang)
}

/// The command can be sent without loss: its language, if it gives one, holds
/// no white space.
pub open spec fn sendable(command: CommandView) -> bool {
    match command {
        CommandView::Start(opts) => sendable_options(opts),
        CommandView::Toggle(opts) => sendable_options(opts),
        CommandView::Stop | CommandView::Status => true,
    }
}

/// The words of the text of options.
spec fn option_words(opts: OptionsView) -> Seq<Seq<char>> {
    let lang = match opts.lang {
        Some(lang) => seq!["lang="@ + lang],
        None => seq![],
    };
    let translate = match opts.translate {
        Some(true) => seq!["translate"@],
        Some(false) => seq!["no_translate"@],
        None => seq![],
    };
    lang + translate
}

proof fn lemma_translate_words(translate: Option<bool>)
    ensures
        ({
            let opts = OptionsView { lang: None, translate };
            text::words(control::options_text(opts)) == option_words(opts)
        }),
{
    let opts = OptionsView { lang: None, translate };
    let none = Seq::<char>::empty();
    reveal_strlit(" translate");
    reveal_strlit("translate");
    reveal_strlit(" no_translate");
    reveal_strlit("no_translate");
    text::lemma_words_blank(none);
    match translate {
        Some(true) => {
            assert(control::options_text(opts) =~= seq![' '] + ("translate"@ + none));
            text::lemma_words_leading_space(' ', "translate"@ + none);
            text::lemma_words_first("translate"@, none);
        },
        Some(false) => {
            assert(control::options_text(opts) =~= seq![' '] + ("no_translate"@ + none));
            text::lemma_words_leading_space(' ', "no_translate"@ + none);
            text::lemma_words_first("no_translate"@, none);
        },
        None => {
            assert(control::options_text(opts) =~= none);
        },
    }
    assert(text::words(control::options_text(opts)) =~= option_words(opts));
}

proof fn lemma_options_words(opts: OptionsView)
    requires
        sendable_options(opts),
    ensures
        text::words(control::options_text(opts)) == option_words(opts),
{
    lemma_translate_words(opts.translate);
    let tail = control::options_text(OptionsView { lang: None, translate: opts.translate });
    reveal_strlit(" translate");
    reveal_strlit(" no_translate");
    match opts.lang {
        Some(lang) => {
            reveal_strlit(" lang=");
            reveal_strlit("lang=");
            let word = "lang="@ + lang;
            assert(control::options_text(opts) =~= seq![' '] + (word + tail));
            text::lemma_words_leading_space(' ', word + tail);
            text::lemma_words_first(word, tail);
            assert(option_words(opts) =~= seq![word] + option_words(
                OptionsView { lang: None, translate: opts.translate },
            ));
        },
        None => {
            assert(control::options_text(opts) =~= tail);
        },
    }
}

proof fn lemma_option_words_parse(opts: OptionsView)
    ensures
        control::last_lang(option_words(opts)) == opts.lang,
        control::last_translate(option_words(opts)) == opts.translate,
{
    reveal_with_fuel(control::last_lang, 3);
    reveal_with_fuel(control::last_translate, 3);
    reveal_strlit("lang=");
    reveal_strlit("translate");
    reveal_strlit("no_translate");
    let words = option_words(opts);
    assert("translate"@.take(5)[0] != "lang="@[0]);
    assert("no_translate"@.take(5)[0] != "lang="@[0]);
    if let Some(lang) = opts.lang {
        let word = "lang="@ + lang;
        assert(word.take(5) =~= "lang="@);
        assert(word.skip(5) =~= lang);
        assert(word[0] == 'l');
        assert(words[0] == word);
        if opts.translate is Some {
            assert(words.drop_last() =~= seq![word]);
        }
        assert(seq![word].drop_last() =~= Seq::<Seq<char>>::empty());
    }
}

/// The verb and the arguments of a text that is a verb without spaces and the
/// text of options.
proof fn lemma_verb_arguments(v: Seq<char>, opts: OptionsView)
    requires
        forall|i: int| 0 <= i < v.len() ==> #[trigger] v[i] != ' ',
    ensures
        control::verb(v + control::options_text(opts)) == v,
        control::parsed_options(control::arguments(v + control::options_text(opts)))
            == control::parsed_options(control::options_text(opts)),
{
    let tail = control::options_text(opts);
    let s = v + tail;
    reveal_strlit(" lang=");
    reveal_strlit(" translate");
    reveal_strlit(" no_translate");
    assert(tail.len() > 0 ==> tail[0] == ' ');
    assert forall|i: int| 0 <= i < v.len() implies #[trigger] s[i] != ' ' by {
        assert(s[i] == v[i]);
    }
    text::lemma_leading_until_unique(s, ' ', v.len() as int);
    assert(s.take(v.len() as int) =~= v);
    if tail.len() > 0 {
        let args = s.skip(v.len() as int + 1);
        assert(tail =~= seq![' '] + args);
        text::lemma_words_leading_space(' ', args);
    } else {
        assert(control::arguments(s) =~= tail);
    }
}

/// A text that reads as options gives a language without white space, if any.
proof fn lemma_last_lang_unspaced(words: Seq<Seq<char>>)
    requires
        forall|i: int| 0 <= i < words.len() ==> text::unspaced(#[trigger] words[i]),
    ensures
        control::last_lang(words) matches Some(lang) ==> text::unspaced(lang),
    decreases words.len(),
{
    if words.len() > 0 {
        reveal_strlit("lang=");
        let last = words.last();
        if text::begins_with(last, "lang="@) {
            assert forall|i: int| 0 <= i < last.skip(5).len() implies !text::white_space(
                #[trigger] last.skip(5)[i],
            ) by {
                assert(last.skip(5)[i] == last[i + 5]);
            }
        } else {
            lemma_last_lang_unspaced(words.drop_last());
        }
    }
}

proof fn lemma_parsed_options_sendable(s: Seq<char>)
    ensures
        sendable_options(control::parsed_options(s)),
{
    text::lemma_words_unspaced(s);
    lemma_last_lang_unspaced(text::words(s));
}

/// The command that a text gives can be sent on without loss.
pub proof fn law_parsed_commands_are_sendable(s: Seq<char>)
    ensures
        control::parsed_command(s) matches Ok(command) ==> sendable(command),
{
    lemma_parsed_options_sendable(control::arguments(s));
}

/// Options survive being written and read back.
pub proof fn law_options_round_trip(opts: OptionsView)
    requires
        sendable_options(opts),
    ensures
        control::parsed_options(control::options_text(opts)) == opts,
{
    lemma_options_words(opts);
    lemma_option_words_parse(opts);
}

/// A command survives being written and read back, if and only if its language
/// holds no white space.
pub proof fn law_command_round_trip(command: CommandView)
    ensures
        control::parsed_command(control::command_text(command)) == Ok::<
            CommandView,
            ControlErrorView,
        >(command) <==> sendable(command),
{
    law_parsed_commands_are_sendable(control::command_text(command));
    if sendable(command) {
        reveal_strlit("start");
        reveal_strlit("stop");
        reveal_strlit("toggle");
        reveal_strlit("status");
        let none = Seq::<char>::empty();
        let no_opts = control::no_options();
        assert(control::options_text(no_opts) =~= none);
        match command {
            CommandView::Start(opts) => {
                lemma_verb_arguments("start"@, opts);
                law_options_round_trip(opts);
            },
            CommandView::Stop => {
                lemma_verb_arguments("stop"@, no_opts);
                assert("stop"@ + none =~= "stop"@);
                assert("stop"@[2] != "start"@[2]);
            },
            CommandView::Toggle(opts) => {
                lemma_verb_arguments("toggle"@, opts);
                law_options_round_trip(opts);
                assert("toggle"@[1] != "start"@[1]);
            },
            CommandView::Status => {
                lemma_verb_arguments("status"@, no_opts);
                assert("status"@ + none =~= "status"@);
                assert("status"@.len() != "start"@.len());
                assert("status"@[0] != "toggle"@[0]);
            },
        }
    }
}

/// Bytes that encode a text are read as that text.
proof fn lemma_encoded_text(s: Seq<char>)
    ensures
        text::lossy_text(encode_utf8(s)) == s,
{
    encode_utf8_valid_utf8(s);
    encode_utf8_decode_utf8(s);
}

proof fn lemma_command_text_ends(command: CommandView)
    requires
        sendable(command),
    ensures
        control::command_text(command).len() > 0,
        !text::white_space(control::command_text(command).first()),
        !text::white_space(control::command_text(command).last()),
{
    reveal_strlit("start");
    reveal_strlit("stop");
    reveal_strlit("toggle");
    reveal_strlit("status");
    reveal_strlit(" lang=");
    reveal_strlit(" translate");
    reveal_strlit(" no_translate");
    let s = control::command_text(command);
    let opts = match command {
        CommandView::Start(opts) => opts,
        CommandView::Toggle(opts) => opts,
        CommandView::Stop | CommandView::Status => control::no_options(),
    };
    let tail = control::options_text(opts);
    if tail.len() > 0 {
        assert(s.last() == tail.last());
        match opts.translate {
            Some(true) => assert(tail.last() == " translate"@.last()),
            Some(false) => assert(tail.last() == " no_translate"@.last()),
            None => {
                let lang = opts.lang->0;
                if lang.len() > 0 {
                    assert(tail.last() == lang.last());
                } else {
                    assert(tail.last() == " lang="@.last());
                }
            },
        }
    }
}

/// The daemon reads from the bytes of a request the command that the client
/// sent, if and only if its language holds no white space, and whatever white
/// space is sent around it.
pub proof fn law_request_round_trip(command: CommandView, before: Seq<char>, after: Seq<char>)
    requires
        text::blank(before),
        text::blank(after),
    ensures
        control::parsed_command(
            text::trimmed(
                text::lossy_text(encode_utf8(before + control::command_text(command) + after)),
            ),
        ) == Ok::<CommandView, ControlErrorView>(command) <==> sendable(command),
{
    let s = before + control::command_text(command) + after;
    lemma_encoded_text(s);
    law_parsed_commands_are_sendable(text::trimmed(s));
    if sendable(command) {
        lemma_command_text_ends(command);
        text::lemma_trimmed_padded(before, control::command_text(command), after);
        law_command_round_trip(command);
    }
}

proof fn lemma_state_name_ends(state: RecorderState)
    ensures
        control::state_name(state).len() > 0,
        !text::white_space(control::state_name(state).first()),
        !text::white_space(control::state_name(state).last()),
{
    reveal_strlit("inactive");
    reveal_strlit("recording");
    reveal_strlit("processing");
}

proof fn lemma_state_names_differ(a: RecorderState, b: RecorderState)
    ensures
        control::state_name(a) == control::state_name(b) ==> a == b,
{
    reveal_strlit("inactive");
    reveal_strlit("recording");
    reveal_strlit("processing");
    assert("inactive"@[0] != "recording"@[0]);
    assert("inactive"@[0] != "processing"@[0]);
    assert("recording"@[0] != "processing"@[0]);
}

/// The name of a state is read back as that state, whatever white space stands
/// around it.
pub proof fn law_state_round_trip(state: RecorderState, before: Seq<char>, after: Seq<char>)
    requires
        text::blank(before),
        text::blank(after),
    ensures
        control::parsed_state(before + control::state_name(state) + after) == Ok::<
            RecorderState,
            ControlErrorView,
        >(state),
{
    lemma_state_name_ends(state);
    text::lemma_trimmed_padded(before, control::state_name(state), after);
    lemma_state_names_differ(state, RecorderState::Inactive);
    lemma_state_names_differ(state, RecorderState::Recording);
    lemma_state_names_differ(state, RecorderState::Processing);
}

/// Only the name of a state is read as that state.
pub proof fn law_states_by_name_only(s: Seq<char>, state: RecorderState)
    ensures
        control::parsed_state(s) == Ok::<RecorderState, ControlErrorView>(state)
            <==> text::trimmed(s) == control::state_name(state),
{
    lemma_state_names_differ(state, RecorderState::Inactive);
    lemma_state_names_differ(state, RecorderState::Recording);
    lemma_state_names_differ(state, RecorderState::Processing);
}

proof fn lemma_acknowledgement(state: RecorderState)
    ensures
        control::parsed_response(
            text::lossy_text(encode_utf8(control::response_text(Some(Ok(state))))),
        ) == Ok::<RecorderState, ControlErrorView>(state),
{
    let s = control::response_text(Some(Ok(state)));
    let none = Seq::<char>::empty();
    let name = control::state_name(state);
    lemma_encoded_text(s);
    reveal_strlit("ok ");
    reveal_strlit("\n");
    lemma_state_name_ends(state);
    let core = "ok "@ + name;
    assert(core.last() == name.last());
    assert(s =~= none + core + "\n"@);
    text::lemma_trimmed_padded(none, core, "\n"@);
    assert(core.take(3) =~= "ok "@);
    assert(core.skip(3) =~= name);
    assert(none + name + none =~= name);
    law_state_round_trip(state, none, none);
}

proof fn lemma_refusal(message: Seq<char>)
    ensures
        control::parsed_response(
            text::lossy_text(encode_utf8(control::response_text(Some(Err(message))))),
        ) == Err::<RecorderState, ControlErrorView>(
            if text::blank(message) {
                ControlErrorView::Malformed("err"@)
            } else {
                ControlErrorView::Refused(text::trimmed_end(message))
            },
        ),
{
    let s = control::response_text(Some(Err(message)));
    let none = Seq::<char>::empty();
    lemma_encoded_text(s);
    reveal_strlit("ok ");
    reveal_strlit("err ");
    reveal_strlit("err");
    reveal_strlit("\n");
    text::lemma_trimmed_end_shape(message);
    let said = text::trimmed_end(message);
    let n = said.len() as int;
    let unsaid = message.skip(n);
    assert(message =~= said + unsaid);
    assert(text::blank(unsaid + "\n"@)) by {
        assert forall|i: int| 0 <= i < (unsaid + "\n"@).len() implies text::white_space(
            #[trigger] (unsaid + "\n"@)[i],
        ) by {
            if i < unsaid.len() {
                assert(unsaid[i] == message[i + n]);
            }
        }
    }
    if n == 0 {
        assert(text::blank(message));
        assert(text::blank(seq![' '] + (unsaid + "\n"@))) by {
            assert forall|i: int| 0 <= i < (seq![' '] + (unsaid + "\n"@)).len() implies text::white_space(
                #[trigger] (seq![' '] + (unsaid + "\n"@))[i],
            ) by {
                if i > 0 {
                    assert((seq![' '] + (unsaid + "\n"@))[i] == (unsaid + "\n"@)[i - 1]);
                }
            }
        }
        assert(s =~= none + "err"@ + (seq![' '] + (unsaid + "\n"@)));
        text::lemma_trimmed_padded(none, "err"@, seq![' '] + (unsaid + "\n"@));
        assert("err"@.take(3)[0] != "ok "@[0]);
    } else {
        assert(!text::white_space(message[n - 1]));
        let core = "err "@ + said;
        assert(core.last() == said.last());
        assert(s =~= none + core + (unsaid + "\n"@));
        text::lemma_trimmed_padded(none, core, unsaid + "\n"@);
        assert(core.take(3)[0] != "ok "@[0]);
        assert(core.take(4) =~= "err "@);
        assert(core.skip(4) =~= said);
    }
}

proof fn lemma_dropped_reply()
    ensures
        control::parsed_response(text::lossy_text(encode_utf8(control::response_text(None))))
            == Err::<RecorderState, ControlErrorView>(
            ControlErrorView::Refused("control handler dropped response"@),
        ),
{
    let message = "control handler dropped response"@;
    reveal_strlit("err control handler dropped response\n");
    reveal_strlit("control handler dropped response");
    reveal_strlit("err ");
    reveal_strlit("\n");
    assert(control::response_text(None) =~= control::response_text(Some(Err(message))));
    assert(!text::white_space(message.last()));
    assert(!text::white_space(message[0]));
    lemma_refusal(message);
}

/// The client learns what the daemon replied: the state with which its request
/// was acknowledged; or the message with which it was refused, without white
/// space at its end, where a blank message shows only as a malformed response;
/// or that no handler replied.
pub proof fn law_response_round_trip(reply: Option<Result<RecorderState, Seq<char>>>)
    ensures
        control::parsed_response(text::lossy_text(encode_utf8(control::response_text(reply)))) == (
        match reply {
            Some(Ok(state)) => Ok::<RecorderState, ControlErrorView>(state),
            Some(Err(message)) => if text::blank(message) {
                Err(ControlErrorView::Malformed("err"@))
            } else {
                Err(ControlErrorView::Refused(text::trimmed_end(message)))
            },
            None => Err(ControlErrorView::Refused("control handler dropped response"@)),
        }),
{
    match reply {
        Some(Ok(state)) => lemma_acknowledgement(state),
        Some(Err(message)) => lemma_refusal(message),
        None => lemma_dropped_reply(),
    }
}

/// A response that holds nothing but white space, as a client reads it whose
/// request the daemon closed without an answer, is malformed.
pub proof fn law_blank_response(s: Seq<char>)
    requires
        text::blank(s),
    ensures
        control::parsed_response(text::lossy_text(encode_utf8(s))) == Err::<
            RecorderState,
            ControlErrorView,
        >(ControlErrorView::Malformed(Seq::empty())),
{
    lemma_encoded_text(s);
    reveal_strlit("ok ");
    reveal_strlit("err ");
    text::lemma_leading_space_unique(s, s.len() as int);
    assert(text::trimmed_start(s) =~= Seq::<char>::empty());
}

/// What later words say overrides what earlier words said, and stands where
/// they say nothing.
pub proof fn law_later_words_override(earlier: Seq<Seq<char>>, later: Seq<Seq<char>>)
    ensures
        control::last_lang(earlier + later) == (match control::last_lang(later) {
            Some(lang) => Some(lang),
            None => control::last_lang(earlier),
        }),
        control::last_translate(earlier + later) == (match control::last_translate(later) {
            Some(translate) => Some(translate),
            None => control::last_translate(earlier),
        }),
    decreases later.len(),
{
    let all = earlier + later;
    if later.len() == 0 {
        assert(all =~= earlier);
    } else {
        assert(all.last() == later.last());
        assert(all.drop_last() =~= earlier + later.drop_last());
        law_later_words_override(earlier, later.drop_last());
    }
}

/// The options that a text gives are found word by word, wherever the words
/// stand: the language is what follows `lang=` in the last word that begins with
/// it, and translation is as the last of `translate` and `no_translate` says.
/// What no word speaks of is not given.
pub proof fn law_options_by_words(s: Seq<char>)
    ensures
        ({
            let words = text::words(s);
            let opts = control::parsed_options(s);
            &&& match opts.lang {
                Some(lang) => exists|i: int|
                    0 <= i < words.len() && #[trigger] words[i] == "lang="@ + lang && forall|j: int|
                        i < j < words.len() ==> !"lang="@.is_prefix_of(#[trigger] words[j]),
                None => forall|j: int|
                    0 <= j < words.len() ==> !"lang="@.is_prefix_of(#[trigger] words[j]),
            }
            &&& match opts.translate {
                Some(translate) => exists|i: int|
                    0 <= i < words.len() && #[trigger] words[i] == (if translate {
                        "translate"@
                    } else {
                        "no_translate"@
                    }) && forall|j: int|
                        i < j < words.len() ==> #[trigger] words[j] != "translate"@ && words[j]
                            != "no_translate"@,
                None => forall|j: int|
                    0 <= j < words.len() ==> #[trigger] words[j] != "translate"@ && words[j]
                        != "no_translate"@,
            }
        }),
{
    lemma_last_lang(text::words(s));
    lemma_last_translate(text::words(s));
}

proof fn lemma_last_lang(words: Seq<Seq<char>>)
    ensures
        match control::last_lang(words) {
            Some(lang) => exists|i: int|
                0 <= i < words.len() && #[trigger] words[i] == "lang="@ + lang && forall|j: int|
                    i < j < words.len() ==> !"lang="@.is_prefix_of(#[trigger] words[j]),
            None => forall|j: int|
                0 <= j < words.len() ==> !"lang="@.is_prefix_of(#[trigger] words[j]),
        },
    decreases words.len(),
{
    if words.len() > 0 {
        let last = words.last();
        let front = words.drop_last();
        let mark = "lang="@;
        text_laws::law_prefix(mark, Seq::empty(), last);
        if text::begins_with(last, mark) {
            assert(words[words.len() - 1] == mark + last.skip(mark.len() as int));
        } else {
            if mark.is_prefix_of(last) {
                assert(last.take(mark.len() as int) =~= mark);
            }
            lemma_last_lang(front);
            assert forall|j: int| front.len() <= j < words.len() implies !mark.is_prefix_of(
                #[trigger] words[j],
            ) by {
                assert(words[j] == last);
            }
            match control::last_lang(words) {
                Some(lang) => {
                    let i = choose|i: int|
                        0 <= i < front.len() && #[trigger] front[i] == mark + lang && forall|j: int|
                            i < j < front.len() ==> !mark.is_prefix_of(#[trigger] front[j]);
                    assert forall|j: int| i < j < words.len() implies !mark.is_prefix_of(
                        #[trigger] words[j],
                    ) by {
                        if j < front.len() {
                            assert(words[j] == front[j]);
                        }
                    }
                    assert(words[i] == mark + lang);
                },
                None => {
                    assert forall|j: int| 0 <= j < words.len() implies !mark.is_prefix_of(
                        #[trigger] words[j],
                    ) by {
                        if j < front.len() {
                            assert(words[j] == front[j]);
                        }
                    }
                },
            }
        }
    }
}

proof fn lemma_last_translate(words: Seq<Seq<char>>)
    ensures
        match control::last_translate(words) {
            Some(translate) => exists|i: int|
                0 <= i < words.len() && #[trigger] words[i] == (if translate {
                    "translate"@
                } else {
                    "no_translate"@
                }) && forall|j: int|
                    i < j < words.len() ==> #[trigger] words[j] != "translate"@ && words[j]
                        != "no_translate"@,
            None => forall|j: int|
                0 <= j < words.len() ==> #[trigger] words[j] != "translate"@ && words[j]
                    != "no_translate"@,
        },
    decreases words.len(),
{
    if words.len() > 0 {
        let last = words.last();
        let front = words.drop_last();
        assert(words[words.len() - 1] == last);
        if last != "translate"@ && last != "no_translate"@ {
            lemma_last_translate(front);
            assert forall|j: int| 0 <= j < front.len() implies #[trigger] words[j] == front[j] by {}
            if let Some(translate) = control::last_translate(words) {
                let name = if translate {
                    "translate"@
                } else {
                    "no_translate"@
                };
                let i = choose|i: int|
                    0 <= i < front.len() && #[trigger] front[i] == name && forall|j: int|
                        i < j < front.len() ==> #[trigger] front[j] != "translate"@ && front[j]
                            != "no_translate"@;
                assert(words[i] == name);
                assert forall|j: int| i < j < words.len() implies #[trigger] words[j]
                    != "translate"@ && words[j] != "no_translate"@ by {
                    if j < front.len() {
                        assert(words[j] == front[j]);
                    }
                }
            }
        }
    }
}

/// Of two texts with white space between them, what the second says is taken,
/// and where it says nothing what the first says.
pub proof fn law_later_text_overrides(a: Seq<char>, c: char, b: Seq<char>)
    requires
        text::white_space(c),
    ensures
        control::parsed_options(a + seq![c] + b).lang == (match control::parsed_options(b).lang {
            Some(lang) => Some(lang),
            None => control::parsed_options(a).lang,
        }),
        control::parsed_options(a + seq![c] + b).translate == (match control::parsed_options(
            b,
        ).translate {
            Some(translate) => Some(translate),
            None => control::parsed_options(a).translate,
        }),
{
    text_laws::law_words_apart(a, c, b);
    law_later_words_override(text::words(a), text::words(b));
}

/// What a single word says: the language after `lang=`, or whether to translate.
/// Any other word says nothing.
pub proof fn law_option_word(w: Seq<char>)
    requires
        forall|i: int| 0 <= i < w.len() ==> !text::white_space(#[trigger] w[i]),
    ensures
        "lang="@.is_prefix_of(w) ==> control::parsed_options(w) == (OptionsView {
            lang: Some(w.skip(5)),
            translate: None,
        }),
        w == "translate"@ ==> control::parsed_options(w) == (OptionsView {
            lang: None,
            translate: Some(true),
        }),
        w == "no_translate"@ ==> control::parsed_options(w) == (OptionsView {
            lang: None,
            translate: Some(false),
        }),
        !"lang="@.is_prefix_of(w) && w != "translate"@ && w != "no_translate"@
            ==> control::parsed_options(w) == (OptionsView { lang: None, translate: None }),
{
    text_laws::law_word(w);
    reveal_strlit("lang=");
    reveal_strlit("translate");
    reveal_strlit("no_translate");
    reveal_with_fuel(control::last_lang, 2);
    reveal_with_fuel(control::last_translate, 2);
    assert("lang="@[0] == 'l' && "translate"@[0] == 't' && "no_translate"@[0] == 'n');
    assert(seq![w].drop_last() =~= Seq::<Seq<char>>::empty());
    assert(seq![w].last() == w);
    assert("lang="@.is_prefix_of(w) <==> text::begins_with(w, "lang="@)) by {
        if text::begins_with(w, "lang="@) {
            assert("lang="@ =~= w.subrange(0, 5));
        }
        if "lang="@.is_prefix_of(w) {
            assert(w.take(5) =~= "lang="@);
        }
    }
    if text::begins_with(w, "lang="@) {
        assert(w.take(5)[0] == w[0]);
    }
}

/// A command is what its verb says, which ends at the first space or at the end
/// of the text. What follows the space gives the options of a start and of a
/// toggle, and says nothing to the others. Any other verb is refused by name.
pub proof fn law_command_by_verb(verb: Seq<char>, rest: Seq<char>)
    requires
        forall|i: int| 0 <= i < verb.len() ==> #[trigger] verb[i] != ' ',
    ensures
        ({
            let alone = control::parsed_command(verb);
            let followed = control::parsed_command(verb + seq![' '] + rest);
            let none = OptionsView { lang: None, translate: None };
            let opts = control::parsed_options(rest);
            &&& verb == "start"@ ==> alone == Ok::<_, ControlErrorView>(CommandView::Start(none))
                && followed == Ok::<_, ControlErrorView>(CommandView::Start(opts))
            &&& verb == "toggle"@ ==> alone == Ok::<_, ControlErrorView>(CommandView::Toggle(none))
                && followed == Ok::<_, ControlErrorView>(CommandView::Toggle(opts))
            &&& verb == "stop"@ ==> alone == Ok::<_, ControlErrorView>(CommandView::Stop)
                && followed == alone
            &&& verb == "status"@ ==> alone == Ok::<_, ControlErrorView>(CommandView::Status)
                && followed == alone
            &&& verb != "start"@ && verb != "toggle"@ && verb != "stop"@ && verb != "status"@
                ==> alone == Err::<CommandView, _>(ControlErrorView::UnknownCommand(verb))
                && followed == alone
        }),
{
    let s = verb + seq![' '] + rest;
    let n = verb.len() as int;
    text::lemma_leading_until_unique(verb, ' ', n);
    assert forall|i: int| 0 <= i < n implies #[trigger] s[i] != ' ' by {
        assert(s[i] == verb[i]);
    }
    text::lemma_leading_until_unique(s, ' ', n);
    assert(verb.take(n) =~= verb);
    assert(s.take(n) =~= verb);
    assert(s.skip(n + 1) =~= rest);
    law_option_word(Seq::empty());
    reveal_strlit("start");
    reveal_strlit("stop");
    reveal_strlit("toggle");
    reveal_strlit("status");
    reveal_strlit("lang=");
    reveal_strlit("translate");
    reveal_strlit("no_translate");
    assert("start"@.len() == 5 && "start"@[0] == 's');
    assert("stop"@.len() == 4);
    assert("toggle"@.len() == 6 && "toggle"@[0] == 't');
    assert("status"@.len() == 6 && "status"@[0] == 's');
    assert("lang="@.len() == 5 && "translate"@.len() == 9 && "no_translate"@.len() == 12);
}

/// The words that name the states.
pub proof fn law_state_names(state: RecorderState)
    ensures
        control::state_name(state) == match state {
            RecorderState::Inactive => "inactive"@,
            RecorderState::Recording => "recording"@,
            RecorderState::Processing => "processing"@,
        },
{
}

/// A text is read as a state if and only if it is the word that names the state,
/// white space around it apart. Otherwise it is refused as it stands between
/// the white space.
pub proof fn law_states_by_word(s: Seq<char>)
    ensures
        control::parsed_state(s) == Ok::<_, ControlErrorView>(RecorderState::Inactive)
            <==> text::trimmed(s) == "inactive"@,
        control::parsed_state(s) == Ok::<_, ControlErrorView>(RecorderState::Recording)
            <==> text::trimmed(s) == "recording"@,
        control::parsed_state(s) == Ok::<_, ControlErrorView>(RecorderState::Processing)
            <==> text::trimmed(s) == "processing"@,
        control::parsed_state(s) is Err ==> control::parsed_state(s) == Err::<RecorderState, _>(
            ControlErrorView::UnknownState(text::trimmed(s)),
        ),
{
    law_states_by_name_only(s, RecorderState::Inactive);
    law_states_by_name_only(s, RecorderState::Recording);
    law_states_by_name_only(s, RecorderState::Processing);
}

/// The options that are given are written, the language first, each after a
/// space, and those that are not given are not.
pub proof fn law_options_text(lang: Seq<char>, translate: Option<bool>)
    ensures
        control::options_text(OptionsView { lang: Some(lang), translate }) == " lang="@ + lang
            + control::options_text(OptionsView { lang: None, translate }),
        control::options_text(OptionsView { lang: None, translate: Some(true) }) == " translate"@,
        control::options_text(OptionsView { lang: None, translate: Some(false) })
            == " no_translate"@,
        control::options_text(OptionsView { lang: None, translate: None }) == Seq::<char>::empty(),
{
    let none = Seq::<char>::empty();
    assert(none + " translate"@ =~= " translate"@);
    assert(none + " no_translate"@ =~= " no_translate"@);
    assert(none + none =~= none);
    let tail = control::options_text(OptionsView { lang: None, translate });
    assert(control::options_text(OptionsView { lang: Some(lang), translate }) =~= " lang="@ + lang
        + tail);
}

/// A command is written as its verb, and a start or a toggle with its options
/// behind it.
pub proof fn law_command_text(opts: OptionsView)
    ensures
        control::command_text(CommandView::Start(opts)) == "start"@ + control::options_text(opts),
        control::command_text(CommandView::Toggle(opts)) == "toggle"@ + control::options_text(opts),
        control::command_text(CommandView::Stop) == "stop"@,
        control::command_text(CommandView::Status) == "status"@,
{
}

/// A response is one line: an acknowledgement with the word for the state, or
/// the message of a refusal.
pub proof fn law_response_text(message: Seq<char>)
    ensures
        control::response_text(Some(Ok(RecorderState::Inactive))) == "ok inactive\n"@,
        control::response_text(Some(Ok(RecorderState::Recording))) == "ok recording\n"@,
        control::response_text(Some(Ok(RecorderState::Processing))) == "ok processing\n"@,
        control::response_text(Some(Err(message))) == "err "@ + message + "\n"@,
        control::response_text(None) == "err control handler dropped response\n"@,
{
    reveal_strlit("ok ");
    reveal_strlit("\n");
    reveal_strlit("inactive");
    reveal_strlit("recording");
    reveal_strlit("processing");
    reveal_strlit("ok inactive\n");
    reveal_strlit("ok recording\n");
    reveal_strlit("ok processing\n");
    assert("ok "@ + "inactive"@ + "\n"@ =~= "ok inactive\n"@);
    assert("ok "@ + "recording"@ + "\n"@ =~= "ok recording\n"@);
    assert("ok "@ + "processing"@ + "\n"@ =~= "ok processing\n"@);
}

/// A response, white space around it apart, acknowledges with what follows `ok`
/// and a space, and refuses with what follows `err` and a space. Any other is
/// malformed.
pub proof fn law_response_by_first_word(s: Seq<char>)
    ensures
        ({
            let body = text::trimmed(s);
            let read = control::parsed_response(s);
            &&& "ok "@.is_prefix_of(body) ==> read == control::parsed_state(body.skip(3))
            &&& "err "@.is_prefix_of(body) ==> read == Err::<RecorderState, _>(
                ControlErrorView::Refused(body.skip(4)),
            )
            &&& !"ok "@.is_prefix_of(body) && !"err "@.is_prefix_of(body) ==> read == Err::<
                RecorderState,
                _,
            >(ControlErrorView::Malformed(body))
        }),
{
    let body = text::trimmed(s);
    reveal_strlit("ok ");
    reveal_strlit("err ");
    assert("ok "@.len() == 3 && "ok "@[0] == 'o');
    assert("err "@.len() == 4 && "err "@[0] == 'e');
    if "ok "@.is_prefix_of(body) {
        assert(body.take(3) =~= "ok "@);
    }
    if "err "@.is_prefix_of(body) {
        assert(body.take(4) =~= "err "@);
        assert(body.take(4)[0] == body[0]);
        assert(body.len() >= 3 ==> body.take(3)[0] == body[0]);
    }
    if text::begins_with(body, "ok "@) {
        assert("ok "@ =~= body.subrange(0, 3));
    }
    if text::begins_with(body, "err "@) {
        assert("err "@ =~= body.subrange(0, 4));
    }
}

/// What is said of an error is what kind it is and the text that it is about. A
/// refusal is passed on as it came.
pub proof fn law_error_text(s: Seq<char>)
    ensures
        control::error_text(ControlErrorView::UnknownState(s)) == "Unknown recorder state: "@ + s,
        control::error_text(ControlErrorView::UnknownCommand(s)) == "Unknown record command: "@ + s,
        control::error_text(ControlErrorView::Refused(s)) == s,
        control::error_text(ControlErrorView::Malformed(s)) == "Malformed control response: "@ + s,
{
}

/// The views of options, commands, errors and results say what these hold.
pub proof fn law_views(
    opts: TranscribeOptions,
    error: ControlError,
    command: RecordCommand,
    r: Result<RecordCommand, ControlError>,
)
    ensures
        opts@.translate == opts.translate,
        opts.lang matches Some(lang) ==> opts@.lang == Some(lang@),
        opts.lang is None ==> opts@.lang is None,
        command matches RecordCommand::Start(o) ==> command@ == CommandView::Start(o@),
        command matches RecordCommand::Toggle(o) ==> command@ == CommandView::Toggle(o@),
        command is Stop ==> command@ is Stop,
        command is Status ==> command@ is Status,
        error matches ControlError::UnknownState(s) ==> error@ == ControlErrorView::UnknownState(
            s@,
        ),
        error matches ControlError::UnknownCommand(s) ==> error@
            == ControlErrorView::UnknownCommand(s@),
        error matches ControlError::Refused(s) ==> error@ == ControlErrorView::Refused(s@),
        error matches ControlError::Malformed(s) ==> error@ == ControlErrorView::Malformed(s@),
        r matches Ok(c) ==> control::outcome(r) == Ok::<_, ControlErrorView>(c@),
        r matches Err(e) ==> control::outcome(r) == Err::<CommandView, _>(e@),
        control::no_options().lang is None,
        control::no_options().translate is None,
{
}

/// The view of a reply says what it holds.
pub proof fn law_reply_view(reply: Option<ControlReply>, r: Result<RecorderState, ControlError>)
    ensures
        reply matches Some(Ok(state)) ==> control::reply_view(reply) == Some(
            Ok::<_, Seq<char>>(state),
        ),
        reply matches Some(Err(message)) ==> control::reply_view(reply) == Some(
            Err::<RecorderState, _>(message@),
        ),
        reply is None ==> control::reply_view(reply) is None,
        r matches Ok(state) ==> control::outcome(r) == Ok::<_, ControlErrorView>(state),
        r matches Err(e) ==> control::outcome(r) == Err::<RecorderState, _>(e@),
{
}

} // verus!
