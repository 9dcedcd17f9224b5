use blokmap::image::{generate_image_filepaths, image_filepaths_with_key, ImageOwner};
use blokmap::keys::{UUID_V4_BITS, UUID_V4_MASK};
use blokmap::permissions::{
    AuthorityPermissions, AUTHORITY_ADD_LOCATION, AUTHORITY_ADMINISTRATOR, AUTHORITY_ALL_BITS,
    AUTHORITY_MANAGE_MEMBERS,
};
use blokmap::translation::{
    BulkTranslationsRequest, BulkTranslationsResponse, Language, TranslationRequest,
};

#[test]
fn keys_print_hyphenated_lower_case() {
    let path = |key: u128| image_filepaths_with_key(1, ImageOwner::Profile, key).1;
    assert_eq!(path(0x67e5_5044_10b1_426f_9247_bb68_0e5f_e0c8), "profile/1/67e55044-10b1-426f-9247-bb680e5fe0c8.webp");
    assert_eq!(path(0), "profile/1/00000000-0000-0000-0000-000000000000.webp");
    assert_eq!(path(u128::MAX), "profile/1/ffffffff-ffff-ffff-ffff-ffffffffffff.webp");
}

#[test]
fn random_keys_are_version_four() {
    let fresh = || TranslationRequest { language: Language::Nl, text: String::new() }.into_new_translation().key;
    for _ in 0..20 {
        let k = fresh();
        assert_eq!(k & UUID_V4_MASK, UUID_V4_BITS);
        let (_, rel) = image_filepaths_with_key(1, ImageOwner::Profile, k);
        let s = &rel["profile/1/".len()..];
        assert_eq!(&s[14..15], "4");
        assert!(matches!(&s[19..20], "8" | "9" | "a" | "b"));
    }
    assert_ne!(fresh(), fresh());
}

#[test]
fn image_paths_with_a_given_key() {
    let key = 0x67e5_5044_10b1_426f_9247_bb68_0e5f_e0c8;
    let (abs, rel) = image_filepaths_with_key(42, ImageOwner::Location, key);
    assert_eq!(rel, "location/42/67e55044-10b1-426f-9247-bb680e5fe0c8.webp");
    assert_eq!(abs, "/mnt/files/location/42/67e55044-10b1-426f-9247-bb680e5fe0c8.webp");
    let (_, rel) = image_filepaths_with_key(-3, ImageOwner::Profile, 0);
    assert_eq!(rel, "profile/-3/00000000-0000-0000-0000-000000000000.webp");
}

#[test]
fn generated_image_paths_agree() {
    let (abs, rel) = generate_image_filepaths(7, ImageOwner::Profile);
    assert!(rel.starts_with("profile/7/"));
    assert!(rel.ends_with(".webp"));
    assert_eq!(rel.len(), "profile/7/".len() + 36 + ".webp".len());
    assert_eq!(abs, format!("/mnt/files/{}", rel));
    // The key is a version 4 UUID: version digit 4, variant digit 8 to b.
    let key: Vec<char> = rel["profile/7/".len()..rel.len() - ".webp".len()].chars().collect();
    assert_eq!(key[14], '4');
    assert!(matches!(key[19], '8' | '9' | 'a' | 'b'));
    assert_eq!(ImageOwner::Profile.as_url_chunk(), "profile");
    assert_eq!(ImageOwner::Location.as_url_chunk(), "location");
}

#[test]
fn permissions_truncate_unknown_bits() {
    let p = AuthorityPermissions::from_bits_truncate(0x7ff);
    assert_eq!(p.bits(), AUTHORITY_ALL_BITS);
    assert_eq!(AuthorityPermissions::from_bits_truncate(-1).bits(), 0x1ff);
    assert_eq!(AuthorityPermissions::from_bits_truncate(0x200).bits(), 0);
    assert!(AuthorityPermissions::from_bits(0x200).is_none());
    assert_eq!(AuthorityPermissions::from_bits(9).unwrap().bits(), 9);
    assert!(AuthorityPermissions::from_bits(-1).is_none());
}

#[test]
fn permission_sets_combine() {
    let admin = AuthorityPermissions::from_bits(AUTHORITY_ADMINISTRATOR).unwrap();
    let add = AuthorityPermissions::from_bits(AUTHORITY_ADD_LOCATION).unwrap();
    let both = admin.union(&add);
    assert_eq!(both.bits(), 9);
    assert!(both.contains(&admin));
    assert!(both.contains(&add));
    assert!(!admin.contains(&both));
    assert!(admin.intersects(&both));
    assert!(!admin.intersects(&add));
    assert!(AuthorityPermissions::all().contains(&both));
    assert_eq!(AuthorityPermissions::empty().bits(), 0);
    assert!(both.contains(&AuthorityPermissions::empty()));
}

#[test]
fn permission_names_in_order() {
    let names = AuthorityPermissions::names();
    assert_eq!(names.len(), 9);
    assert_eq!(names[0], ("Administrator".to_string(), 1));
    assert_eq!(names[3], ("AddLocation".to_string(), 8));
    assert_eq!(names[8], ("ManageMembers".to_string(), AUTHORITY_MANAGE_MEMBERS));
    let total = names.iter().fold(0, |acc, (_, b)| acc | b);
    assert_eq!(total, AUTHORITY_ALL_BITS);
}

#[test]
fn translation_request_keeps_its_text() {
    let t = TranslationRequest { language: Language::Fr, text: "bonjour".to_string() };
    let n = t.clone().into_new_translation_with_key(5);
    assert_eq!((n.key, n.language, n.text.as_str()), (5, Language::Fr, "bonjour"));
    let n = t.into_new_translation();
    assert_eq!(n.key & UUID_V4_MASK, UUID_V4_BITS);
    assert_eq!(n.text, "bonjour");
}

#[test]
fn bulk_translations_share_one_key() {
    let req = BulkTranslationsRequest(vec![
        (Language::Nl, "hallo".to_string()),
        (Language::En, "hello".to_string()),
        (Language::De, "hallo".to_string()),
    ]);
    let with_key = req.clone().into_new_translations_with_key(11);
    assert_eq!(with_key.len(), 3);
    assert_eq!(with_key[1].language, Language::En);
    assert_eq!(with_key[1].text, "hello");
    assert!(with_key.iter().all(|t| t.key == 11));
    let fresh = req.into_new_translations();
    assert_eq!(fresh.len(), 3);
    assert!(fresh.iter().all(|t| t.key == fresh[0].key));
    assert_eq!(fresh[0].key & UUID_V4_MASK, UUID_V4_BITS);
    assert_eq!(fresh[2].language, Language::De);
}

#[test]
fn responses_keep_the_last_translation_per_language() {
    let r = BulkTranslationsResponse::from_translations(vec![
        (Language::Nl, 1),
        (Language::En, 2),
        (Language::Nl, 3),
    ]);
    assert_eq!(r.nl, Some(3));
    assert_eq!(r.en, Some(2));
    assert_eq!(r.fr, None);
    assert_eq!(r.de, None);
    let empty: BulkTranslationsResponse<i32> = BulkTranslationsResponse::from_translations(vec![]);
    assert!(empty.nl.is_none() && empty.en.is_none() && empty.fr.is_none() && empty.de.is_none());
}
