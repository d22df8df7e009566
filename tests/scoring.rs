use wordle_lib::verdict::{GameResponse, GameResponseChar, ResponseError, GRAY, GREEN, YELLOW};
use wordle_lib::word::{Guess, GuessError};

fn score(guess: &str, answer: &str) -> String {
    let guess = Guess::build(guess.to_string()).expect("value is hardcoded, shouldn't fail");
    let answer = Guess::build(answer.to_string()).expect("value is hardcoded, shouldn't fail");
    guess.verify(&answer).unpretty_string()
}

#[test]
fn it_works() {
    let _ = Guess::build("radio".to_owned())
        .expect("Building radio shouldn't ever fail in this test");
}

#[test]
fn it_doesnt_work_too() {
    let bad_guess = Guess::build("wow".to_owned());
    assert_eq!(bad_guess.unwrap_err(), GuessError::WrongLength);
}

#[test]
fn test_guess_with_numbers() {
    let bad_guess = Guess::build("12345".to_string());
    assert_eq!(bad_guess.unwrap_err(), GuessError::NotAlphabetic);
}

#[test]
fn speed_speed() {
    assert_eq!(score("speed", "speed"), "GGGGG");
}

#[test]
fn speed_crepe() {
    assert_eq!(score("speed", "crepe"), "-YGY-");
}

#[test]
fn speed_erase() {
    assert_eq!(score("speed", "erase"), "Y-YY-");
}

#[test]
fn speed_abide() {
    assert_eq!(score("speed", "abide"), "--Y-Y");
}

#[test]
fn speed_steal() {
    assert_eq!(score("speed", "steal"), "G-G--");
}

#[test]
fn verify_response() {
    let guess = Guess::build("speed".to_string()).expect("value is hardcoded, shouldn't fail");
    let answer = Guess::build("speed".to_string()).expect("value is hardcoded, shouldn't fail");
    let resp: GameResponse = guess.verify(&answer);
    assert!(resp.victory());
}

#[test]
fn verify_response_fail() {
    let guess = Guess::build("speed".to_string()).expect("value is hardcoded, shouldn't fail");
    let answer = Guess::build("speep".to_string()).expect("value is hardcoded, shouldn't fail");
    let resp: GameResponse = guess.verify(&answer);
    assert!(!resp.victory());
}

#[test]
fn test_gameresp_pretty() {
    let resp = GameResponse::new("GY-XG".to_string()).unwrap();
    let my_array: [char; 5] = [GREEN, YELLOW, GRAY, GRAY, GREEN];
    let correct: String = my_array.iter().collect();
    assert_eq!(resp.pretty_string(), correct);
}

#[test]
fn test_gameresp_pretty_crash() {
    let resp = GameResponse::new("GYGAX".to_string());
    assert_eq!(resp.unwrap_err(), ResponseError::InvalidVerdictSymbol);
}

#[test]
fn all_absent() {
    assert_eq!(score("speed", "think"), "-----");
    let guess = Guess::build("speed".to_string()).unwrap();
    let answer = Guess::build("think".to_string()).unwrap();
    assert!(!guess.verify(&answer).victory());
}

#[test]
fn self_match_is_victory() {
    for w in ["radio", "speed", "eerie", "abcde", "ZZZZZ"] {
        let g = Guess::build(w.to_string()).unwrap();
        let resp = g.verify(&g.clone());
        assert_eq!(resp.unpretty_string(), "GGGGG");
        assert!(resp.victory());
    }
}

#[test]
fn repeated_letters_not_double_counted() {
    // answer holds two e's, both matched in place: the other e's score nothing
    assert_eq!(score("eeeee", "speed"), "--GG-");
    // one spare e in the answer goes to the leftmost unmatched e of the guess
    assert_eq!(score("eexxx", "abcde"), "Y----");
    assert_eq!(score("xeexe", "eabcd"), "-Y---");
    // the answer's copies go first to places that agree
    assert_eq!(score("ppxxp", "abcdp"), "----G");
}

#[test]
fn conservation_on_concrete_words() {
    let cases = [("speed", "erase"), ("eerie", "there"), ("lllll", "hello"), ("abbey", "babes")];
    for (g, a) in cases {
        let guess = Guess::build(g.to_string()).unwrap();
        let answer = Guess::build(a.to_string()).unwrap();
        let resp = guess.verify(&answer).unpretty_string();
        for letter in g.chars() {
            let scored = g
                .chars()
                .zip(resp.chars())
                .filter(|(c, v)| *c == letter && *v != '-')
                .count();
            let present = a.chars().filter(|c| *c == letter).count();
            assert!(scored <= present);
        }
    }
    assert_eq!(score("lllll", "hello"), "--GG-");
    assert_eq!(score("eerie", "there"), "Y-Y-G");
}

#[test]
fn scoring_twice_gives_the_same_verdict() {
    let guess = Guess::build("crepe".to_string()).unwrap();
    let answer = Guess::build("speed".to_string()).unwrap();
    let first = guess.verify(&answer);
    let second = guess.verify(&answer);
    assert_eq!(first, second);
    assert_eq!(first.unpretty_string(), "--GYY");
}

#[test]
fn compact_round_trip() {
    for s in ["GGGGG", "-----", "GY-YG", "YYYYY", "-G-Y-"] {
        let resp = GameResponse::new(s.to_string()).unwrap();
        assert_eq!(resp.unpretty_string(), s);
        let again = GameResponse::new(resp.unpretty_string()).unwrap();
        assert_eq!(again, resp);
    }
    let guess = Guess::build("speed".to_string()).unwrap();
    let answer = Guess::build("erase".to_string()).unwrap();
    let resp = guess.verify(&answer);
    assert_eq!(GameResponse::new(resp.unpretty_string()).unwrap(), resp);
}

#[test]
fn x_reads_as_gray() {
    let resp = GameResponse::new("XXXXX".to_string()).unwrap();
    assert_eq!(resp.unpretty_string(), "-----");
}

#[test]
fn parse_wrong_length() {
    assert_eq!(GameResponse::new("GG".to_string()).unwrap_err(), ResponseError::WrongLength);
    assert_eq!(GameResponse::new("GGGGGG".to_string()).unwrap_err(), ResponseError::WrongLength);
    assert_eq!(GameResponse::new("".to_string()).unwrap_err(), ResponseError::WrongLength);
    // length is checked before the symbols
    assert_eq!(GameResponse::new("ab".to_string()).unwrap_err(), ResponseError::WrongLength);
}

#[test]
fn lowercase_symbols_refused() {
    assert_eq!(
        GameResponse::new("gyggg".to_string()).unwrap_err(),
        ResponseError::InvalidVerdictSymbol
    );
}

#[test]
fn build_wrong_length_first() {
    assert_eq!(Guess::build(String::new()).unwrap_err(), GuessError::WrongLength);
    assert_eq!(Guess::build("12".to_string()).unwrap_err(), GuessError::WrongLength);
    assert_eq!(Guess::build("123456".to_string()).unwrap_err(), GuessError::WrongLength);
    assert_eq!(Guess::build("abcdef".to_string()).unwrap_err(), GuessError::WrongLength);
}

#[test]
fn build_counts_characters_not_bytes() {
    let g = Guess::build("héllo".to_string()).unwrap();
    assert_eq!(g.text(), "héllo");
    assert_eq!(Guess::build("héllos".to_string()).unwrap_err(), GuessError::WrongLength);
}

#[test]
fn build_refuses_any_non_letter() {
    assert_eq!(Guess::build("!@#$%".to_string()).unwrap_err(), GuessError::NotAlphabetic);
    assert_eq!(Guess::build("abc1e".to_string()).unwrap_err(), GuessError::NotAlphabetic);
    assert_eq!(Guess::build("ab de".to_string()).unwrap_err(), GuessError::NotAlphabetic);
}

#[test]
fn comparison_is_case_sensitive() {
    let g = Guess::build("Speed".to_string()).unwrap();
    assert_eq!(g.text(), "Speed");
    assert_eq!(score("Speed", "speed"), "-GGGG");
}

#[test]
fn unchecked_new_matches_build() {
    let crane_safe = Guess::build("crane".into()).unwrap();
    let crane_unchecked = Guess::new("crane".into());
    assert_eq!(crane_safe, crane_unchecked);
    assert_eq!(crane_safe.as_array(), vec!['c', 'r', 'a', 'n', 'e']);
}

#[test]
fn renderings_of_each_verdict() {
    assert_eq!(GameResponseChar::Green.to_char(), 'G');
    assert_eq!(GameResponseChar::Yellow.to_char(), 'Y');
    assert_eq!(GameResponseChar::Gray.to_char(), '-');
    assert_eq!(GameResponseChar::Green.to_emoji(), GREEN);
    assert_eq!(GameResponseChar::Yellow.to_emoji(), YELLOW);
    assert_eq!(GameResponseChar::Gray.to_emoji(), GRAY);
    assert_eq!(GameResponseChar::five_greys(), vec![GameResponseChar::Gray; 5]);
    let guess = Guess::build("speed".to_string()).unwrap();
    let answer = Guess::build("crepe".to_string()).unwrap();
    assert_eq!(guess.verify(&answer).pretty_string(), "⬜🟨🟩🟨⬜");
}
