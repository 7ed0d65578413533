use hyprwhspr_rs::control::{
    decode_request, decode_response, encode_request, encode_response, format_response,
    parse_response, ControlError, RecordCommand, RecorderState, TranscribeOptions,
};
use std::str::FromStr;

fn options(lang: Option<&str>, translate: Option<bool>) -> TranscribeOptions {
    TranscribeOptions {
        lang: lang.map(str::to_string),
        translate,
    }
}

#[test]
fn parses_state_strings() {
    assert_eq!(
        RecorderState::from_str("recording").unwrap(),
        RecorderState::Recording
    );
    assert_eq!(
        RecorderState::from_str("processing").unwrap(),
        RecorderState::Processing
    );
}

#[test]
fn parses_command_strings() {
    assert_eq!(
        RecordCommand::from_str("start").unwrap(),
        RecordCommand::Start(TranscribeOptions::default())
    );
    assert_eq!(
        RecordCommand::from_str("stop").unwrap(),
        RecordCommand::Stop
    );
    assert_eq!(
        RecordCommand::from_str("toggle").unwrap(),
        RecordCommand::Toggle(TranscribeOptions::default())
    );
    assert_eq!(
        RecordCommand::from_str("status").unwrap(),
        RecordCommand::Status
    );
}

#[test]
fn roundtrips_record_options() {
    let cmd = RecordCommand::Toggle(TranscribeOptions {
        lang: Some("fr".to_string()),
        translate: Some(true),
    });
    let encoded = cmd.to_string();
    assert_eq!(encoded, "toggle lang=fr translate");
    let decoded = RecordCommand::from_str(&encoded).unwrap();
    assert_eq!(decoded, cmd);
}

#[test]
fn roundtrips_lang_only() {
    let cmd = RecordCommand::Start(TranscribeOptions {
        lang: Some("auto".to_string()),
        translate: Some(false),
    });
    let decoded = RecordCommand::from_str(&cmd.to_string()).unwrap();
    assert_eq!(decoded, cmd);
}

#[test]
fn roundtrips_translate_only() {
    let cmd = RecordCommand::Toggle(TranscribeOptions {
        lang: Some("en".to_string()),
        translate: Some(true),
    });
    let decoded = RecordCommand::from_str(&cmd.to_string()).unwrap();
    assert_eq!(decoded, cmd);
}

#[test]
fn rejects_unknown_response() {
    assert!(parse_response("wat").is_err());
    assert!(parse_response("err nope").is_err());
}

#[test]
fn states_have_names() {
    assert_eq!(RecorderState::Inactive.as_str(), "inactive");
    assert_eq!(RecorderState::Recording.as_str(), "recording");
    assert_eq!(RecorderState::Processing.as_str(), "processing");
    assert_eq!(RecorderState::Processing.to_string(), "processing");
}

#[test]
fn states_are_read_with_white_space_around_them() {
    for state in [
        RecorderState::Inactive,
        RecorderState::Recording,
        RecorderState::Processing,
    ] {
        let padded = format!("\t \u{3000}{}\n\u{a0}", state.as_str());
        assert_eq!(RecorderState::from_str(&padded), Ok(state));
    }
}

#[test]
fn unknown_states_are_named_without_white_space() {
    let error = RecorderState::from_str(" Recording ").unwrap_err();
    assert_eq!(error, ControlError::UnknownState("Recording".to_string()));
    assert_eq!(error.to_string(), "Unknown recorder state: Recording");
}

#[test]
fn default_commands_carry_no_options() {
    assert_eq!(
        RecordCommand::start_default(),
        RecordCommand::Start(options(None, None))
    );
    assert_eq!(
        RecordCommand::toggle_default(),
        RecordCommand::Toggle(options(None, None))
    );
    assert_eq!(RecordCommand::start_default().to_string(), "start");
    assert_eq!(RecordCommand::toggle_default().to_string(), "toggle");
    assert_eq!(RecordCommand::Stop.to_string(), "stop");
    assert_eq!(RecordCommand::Status.to_string(), "status");
}

#[test]
fn options_are_written_after_a_space() {
    assert_eq!(options(None, None).to_string(), "");
    assert_eq!(options(Some("de"), None).to_string(), " lang=de");
    assert_eq!(options(None, Some(true)).to_string(), " translate");
    assert_eq!(options(None, Some(false)).to_string(), " no_translate");
    assert_eq!(
        options(Some("de"), Some(false)).to_string(),
        " lang=de no_translate"
    );
}

#[test]
fn later_options_override_earlier_ones() {
    assert_eq!(
        TranscribeOptions::from_str("lang=a translate lang=b other no_translate"),
        Ok(options(Some("b"), Some(false)))
    );
    assert_eq!(
        TranscribeOptions::from_str("lang=a translate other"),
        Ok(options(Some("a"), Some(true)))
    );
}

#[test]
fn options_are_separated_by_any_white_space() {
    assert_eq!(
        TranscribeOptions::from_str("\t\u{2003}lang=fr\n\ntranslate "),
        Ok(options(Some("fr"), Some(true)))
    );
    assert_eq!(TranscribeOptions::from_str(""), Ok(options(None, None)));
    assert_eq!(
        TranscribeOptions::from_str("lang= Translate"),
        Ok(options(Some(""), None))
    );
}

#[test]
fn commands_end_at_the_first_space() {
    assert_eq!(RecordCommand::from_str("stop now"), Ok(RecordCommand::Stop));
    assert_eq!(
        RecordCommand::from_str("start  lang=fr"),
        Ok(RecordCommand::Start(options(Some("fr"), None)))
    );
    assert_eq!(
        RecordCommand::from_str(" start"),
        Err(ControlError::UnknownCommand(String::new()))
    );
    assert_eq!(
        RecordCommand::from_str("start\n"),
        Err(ControlError::UnknownCommand("start\n".to_string()))
    );
}

#[test]
fn unknown_commands_are_named() {
    let error = RecordCommand::from_str("launch lang=fr").unwrap_err();
    assert_eq!(error, ControlError::UnknownCommand("launch".to_string()));
    assert_eq!(error.to_string(), "Unknown record command: launch");
}

#[test]
fn languages_without_white_space_survive() {
    for lang in ["", "fr", "lang=fr", "translate", "日本語", "a=b"] {
        for translate in [None, Some(true), Some(false)] {
            let cmd = RecordCommand::Start(options(Some(lang), translate));
            assert_eq!(RecordCommand::from_str(&cmd.to_string()), Ok(cmd.clone()));
            assert_eq!(decode_request(&encode_request(&cmd)), Ok(cmd));
        }
    }
}

#[test]
fn languages_with_white_space_do_not_survive() {
    for lang in [" ", "fr ", "a b", "a translate", "\u{85}"] {
        let cmd = RecordCommand::Toggle(options(Some(lang), None));
        assert_ne!(RecordCommand::from_str(&cmd.to_string()), Ok(cmd.clone()));
        assert_ne!(decode_request(&encode_request(&cmd)), Ok(cmd));
    }
}

#[test]
fn what_was_read_can_be_sent_on() {
    for request in ["start lang=a\u{a0}b", "toggle  x lang=", "stop it", "status"] {
        let command = decode_request(request.as_bytes()).unwrap();
        assert_eq!(decode_request(&encode_request(&command)), Ok(command));
    }
}

#[test]
fn requests_are_trimmed() {
    assert_eq!(
        decode_request(b"\n toggle lang=fr \r\n"),
        Ok(RecordCommand::Toggle(options(Some("fr"), None)))
    );
    assert_eq!(
        decode_request(b""),
        Err(ControlError::UnknownCommand(String::new()))
    );
}

#[test]
fn requests_that_are_not_utf8_are_read_with_replacements() {
    assert_eq!(
        decode_request(b"start lang=\xff"),
        Ok(RecordCommand::Start(options(Some("\u{fffd}"), None)))
    );
    assert_eq!(
        decode_request(b"st\xc3p"),
        Err(ControlError::UnknownCommand("st\u{fffd}p".to_string()))
    );
}

#[test]
fn responses_are_lines() {
    assert_eq!(
        format_response(&Some(Ok(RecorderState::Recording))),
        "ok recording\n"
    );
    assert_eq!(
        format_response(&Some(Err("busy".to_string()))),
        "err busy\n"
    );
    assert_eq!(
        format_response(&None),
        "err control handler dropped response\n"
    );
}

#[test]
fn clients_learn_what_was_replied() {
    for state in [
        RecorderState::Inactive,
        RecorderState::Recording,
        RecorderState::Processing,
    ] {
        assert_eq!(
            decode_response(&encode_response(&Some(Ok(state)))),
            Ok(state)
        );
    }
    assert_eq!(
        decode_response(&encode_response(&Some(Err(" not now \n".to_string())))),
        Err(ControlError::Refused(" not now".to_string()))
    );
    assert_eq!(
        decode_response(&encode_response(&Some(Err(" ".to_string())))),
        Err(ControlError::Malformed("err".to_string()))
    );
    assert_eq!(
        decode_response(&encode_response(&None)),
        Err(ControlError::Refused(
            "control handler dropped response".to_string()
        ))
    );
}

#[test]
fn responses_of_no_form_are_malformed() {
    let error = parse_response(" wat ").unwrap_err();
    assert_eq!(error, ControlError::Malformed("wat".to_string()));
    assert_eq!(error.to_string(), "Malformed control response: wat");
    assert_eq!(
        decode_response(b""),
        Err(ControlError::Malformed(String::new()))
    );
    assert_eq!(
        decode_response(b" \r\n"),
        Err(ControlError::Malformed(String::new()))
    );
    assert_eq!(
        decode_response(b"\xfe"),
        Err(ControlError::Malformed("\u{fffd}".to_string()))
    );
    assert_eq!(
        parse_response("okay"),
        Err(ControlError::Malformed("okay".to_string()))
    );
}

#[test]
fn acknowledgements_name_a_state() {
    assert_eq!(
        parse_response("ok  recording\n"),
        Ok(RecorderState::Recording)
    );
    assert_eq!(
        parse_response("ok paused\n"),
        Err(ControlError::UnknownState("paused".to_string()))
    );
}

#[test]
fn refusals_are_told_by_their_message() {
    let error = parse_response("err nope").unwrap_err();
    assert_eq!(error, ControlError::Refused("nope".to_string()));
    assert_eq!(error.to_string(), "nope");
}
