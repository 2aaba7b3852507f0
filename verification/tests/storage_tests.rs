use balabol::crypto::ContactCard;
use balabol::storage::{contact_save_plan, peer_stub_id, ContactSavePlan};

fn card(user_id: &str, bio: Option<&str>) -> ContactCard {
    ContactCard {
        user_id: user_id.into(),
        public_key_hex: String::new(),
        display_name: "n".into(),
        avatar_url: None,
        bio: bio.map(|b| b.to_string()),
    }
}

#[test]
fn stub_ids_replace_colons() {
    assert_eq!(peer_stub_id("10.0.0.1:42420"), "peer:10.0.0.1_42420");
}

#[test]
fn keyed_contacts_replace_stubs_of_their_endpoint() {
    assert_eq!(
        contact_save_plan(&card("bala:abc", Some("1.2.3.4:5"))),
        ContactSavePlan::ReplaceStubs { endpoint: "1.2.3.4:5".into(), stub_id: "peer:1.2.3.4_5".into() }
    );
    assert_eq!(
        contact_save_plan(&card("peer:1.2.3.4_5", Some("1.2.3.4:5"))),
        ContactSavePlan::WriteUnlessKeyed { endpoint: "1.2.3.4:5".into() }
    );
    assert_eq!(contact_save_plan(&card("bala:abc", None)), ContactSavePlan::Write);
    assert_eq!(contact_save_plan(&card("other", Some("x"))), ContactSavePlan::Write);
}
