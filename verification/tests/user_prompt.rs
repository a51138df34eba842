use astrcode::events::EventPayload;
use astrcode::llm::{LlmContent, LlmRole};
use astrcode::user_prompt::{image_label, UserImagePart, UserPromptParts};

fn image(name: &str) -> UserImagePart {
    UserImagePart { filename: name.into(), media_type: "image/png".into(), base64: "AAAA".into() }
}

#[test]
fn submittable_needs_text_or_image() {
    assert!(!UserPromptParts::text_only("  ".into()).is_submittable());
    assert!(UserPromptParts::text_only("hi".into()).is_submittable());
    let only_image = UserPromptParts { text: String::new(), images: vec![image("a.png")] };
    assert!(only_image.is_submittable());
}

#[test]
fn labels_and_display_text() {
    assert_eq!(image_label(1, "a.png"), "[Image 1: a.png]");
    assert_eq!(image_label(2, " "), "[Image 2]");
    let parts = UserPromptParts { text: " look \n".into(), images: vec![image("a.png"), image("")] };
    assert_eq!(parts.display_text(), "look\n[Image 1: a.png]\n[Image 2]");
}

#[test]
fn llm_message_and_event() {
    let parts = UserPromptParts { text: "describe".into(), images: vec![image("a.png")] };
    let message = parts.to_llm_message();
    assert_eq!(message.role, LlmRole::User);
    assert!(matches!(&message.content[0], LlmContent::Text { text } if text == "describe"));
    assert!(matches!(&message.content[1], LlmContent::Image { media_type, .. } if media_type == "image/png"));
    match parts.user_message_event("m1".into()) {
        EventPayload::UserMessage { message_id, text, images } => {
            assert_eq!(message_id, "m1");
            assert_eq!(text, "describe");
            assert_eq!(images.len(), 1);
        },
        _ => panic!("not a user message"),
    }
}
