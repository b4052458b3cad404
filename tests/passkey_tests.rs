use proton_pass_mobile::{
    challenge_response, creation_response, creation_step, GeneratedPasskey, PasskeyError,
};

fn generated(passkey: Vec<u8>) -> GeneratedPasskey {
    GeneratedPasskey {
        passkey,
        rp_name: "Example".to_string(),
        user_name: "alice".to_string(),
        user_display_name: "Alice".to_string(),
    }
}

#[test]
fn creation_succeeds_with_material_and_response() {
    let g = creation_step(Ok(generated(vec![1, 2, 3]))).unwrap();
    let r = creation_response(g, Ok("{\"id\":\"x\"}".to_string())).unwrap();
    assert_eq!(r.passkey, vec![1, 2, 3]);
    assert_eq!(r.response, "{\"id\":\"x\"}");
    assert_eq!(r.rp_name, "Example");
    assert_eq!(r.user_name, "alice");
    assert_eq!(r.user_display_name, "Alice");
}

#[test]
fn creation_failures_are_tagged_by_stage() {
    match creation_step(Err("no provider".to_string())) {
        Err(PasskeyError::GenerationFailed(d)) => assert_eq!(d, "no provider"),
        _ => panic!("expected a generation failure"),
    }
    assert!(matches!(creation_step(Ok(generated(vec![]))), Err(PasskeyError::GenerationFailed(_))));
    match creation_response(generated(vec![9]), Err("bad json".to_string())) {
        Err(PasskeyError::ResponseRenderingFailed(d)) => assert_eq!(d, "bad json"),
        _ => panic!("expected a rendering failure"),
    }
    assert!(matches!(
        creation_response(generated(vec![]), Ok("{}".to_string())),
        Err(PasskeyError::GenerationFailed(_))
    ));
    assert!(matches!(
        creation_response(generated(vec![9]), Ok(String::new())),
        Err(PasskeyError::ResponseRenderingFailed(_))
    ));
}

#[test]
fn challenge_failures_are_tagged_by_stage() {
    assert_eq!(challenge_response(None, Ok("signed".to_string())).unwrap(), "signed");
    assert_eq!(challenge_response(None, Ok(String::new())).unwrap(), "");
    match challenge_response(Some("unknown rp".to_string()), Ok("signed".to_string())) {
        Err(PasskeyError::ChallengeResolutionFailed(d)) => assert_eq!(d, "unknown rp"),
        _ => panic!("expected a resolution failure"),
    }
    match challenge_response(None, Err("encode".to_string())) {
        Err(PasskeyError::ResponseRenderingFailed(d)) => assert_eq!(d, "encode"),
        _ => panic!("expected a rendering failure"),
    }
}
