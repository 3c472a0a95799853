use outetts::errors::SpeakerError;
use outetts::speakers::SpeakerRepository;

fn svec(words: &[&str]) -> Vec<String> {
    words.iter().map(|w| w.to_string()).collect()
}

#[test]
fn validate_known_speaker() {
    let repo = SpeakerRepository::new();
    assert_eq!(repo.validate("en", "male_1"), Ok(true));
    assert_eq!(repo.validate("ja", "female_3"), Ok(true));
    assert_eq!(repo.validate("zh", "female_1"), Ok(true));
}

#[test]
fn validate_unknown_language_lists_available_languages() {
    let repo = SpeakerRepository::new();
    let err = repo.validate("xx", "male_1").err().unwrap();
    assert_eq!(
        err,
        SpeakerError::UnknownLanguage {
            language: "xx".to_string(),
            available: svec(&["en", "ja", "ko", "zh"]),
        }
    );
}

#[test]
fn validate_unknown_speaker_lists_that_languages_speakers() {
    let repo = SpeakerRepository::new();
    let err = repo.validate("en", "nobody").err().unwrap();
    assert_eq!(
        err,
        SpeakerError::UnknownSpeaker {
            language: "en".to_string(),
            speaker: "nobody".to_string(),
            available: svec(&["male_1", "male_2", "male_3", "male_4", "female_1", "female_2"]),
        }
    );
}

#[test]
fn validate_canonicalizes_case_and_whitespace() {
    let repo = SpeakerRepository::new();
    assert_eq!(repo.validate(" EN ", "MALE_1"), Ok(true));
    assert_eq!(repo.validate("Ko", "\tfemale_2\n"), Ok(true));
}
