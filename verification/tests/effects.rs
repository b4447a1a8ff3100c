use cosmic_sim::ai::effects::{effect_instructions, split_effects};

#[test]
fn split_effects_removes_closed_tags() {
    let text = "We'll send fuel.\n<effect>{\"type\": \"transfer_fuel\", \"amount\": 5.0, \"to_player\": true}</effect>\n";
    let (clean, payloads) = split_effects(text);
    assert_eq!(clean, "We'll send fuel.");
    assert_eq!(
        payloads,
        vec!["{\"type\": \"transfer_fuel\", \"amount\": 5.0, \"to_player\": true}".to_string()]
    );
}

#[test]
fn split_effects_trims_payloads_and_keeps_order() {
    let text = "a<effect>  one \n</effect>b<effect>two</effect>c  ";
    let (clean, payloads) = split_effects(text);
    assert_eq!(clean, "abc");
    assert_eq!(payloads, vec!["one".to_string(), "two".to_string()]);
}

#[test]
fn split_effects_keeps_unclosed_tag() {
    let text = "start<effect>{}</effect> mid <effect>{\"x\": 1} tail  ";
    let (clean, payloads) = split_effects(text);
    assert_eq!(clean, "start mid <effect>{\"x\": 1} tail");
    assert_eq!(payloads, vec!["{}".to_string()]);
}

#[test]
fn split_effects_without_tags_only_trims_the_end() {
    let (clean, payloads) = split_effects("  plain reply \n\n");
    assert_eq!(clean, "  plain reply");
    assert!(payloads.is_empty());
}

#[test]
fn split_effects_empty_tag_and_multibyte_text() {
    let (clean, payloads) = split_effects("Ω<effect></effect>—done");
    assert_eq!(clean, "Ω—done");
    assert_eq!(payloads, vec![String::new()]);
}

fn expected_instructions(available: &str) -> String {
    format!(
        "\n\nGAME EFFECTS\n\
If your response commits to a concrete game-world action, append a single effect tag \
on its own line at the very end of your message — after all narrative text:\n\
  <effect>{{...}}</effect>\n\n\
Available types:\n\
{available}\n\n\
Rules:\n\
- Only emit an effect when your narrative explicitly describes that action as happening now\n\
- \"to_player: true\" means resources flow to the player; false means the reverse\n\
- Do not manufacture reasons to trigger effects; most messages need none\n\
- You cannot give resources you wouldn't plausibly have",
        available = available
    )
}

#[test]
fn effect_instructions_for_companion_lists_all_effects() {
    let available = r#"  {"type": "set_objective", "text": "concise objective description"}
  {"type": "transfer_resource", "resource": "He-3" or "D", "amount_g": <float>, "to_player": <bool>}
  {"type": "transfer_fuel", "amount": <float>, "to_player": <bool>}
  {"type": "transfer_pellets", "count": <int>, "to_player": <bool>}
  {"type": "unlock_feature", "feature": "atmo_scoop"}

Unlockable features you know about:
  atmo_scoop — orbital atmospheric scooping on gas giants and ice giants for He-3/D
    collection without landing. Bypasses Extreme surface risk. Emit this unlock if the
    player asks about alternative fuel sources, seems stuck for fuel, or the topic
    comes up naturally. Do not force it; let it arise from the conversation."#;
    assert_eq!(effect_instructions("companion"), expected_instructions(available));
}

#[test]
fn effect_instructions_for_aria_only_sets_objectives() {
    let available = r#"  {"type": "set_objective", "text": "concise objective description"}"#;
    assert_eq!(effect_instructions("aria"), expected_instructions(available));
    assert_eq!(effect_instructions("ARIA"), expected_instructions(available));
    assert!(!effect_instructions("aria").contains("transfer_fuel"));
}
