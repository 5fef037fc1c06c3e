use demux2::template::substitute_token;

#[test]
fn template_without_placeholder_is_unchanged() {
    assert_eq!(substitute_token("s3://bucket/out.mp4", "T"), "s3://bucket/out.mp4");
    assert_eq!(substitute_token("", "T"), "");
    assert_eq!(substitute_token("%", "T"), "%");
    assert_eq!(substitute_token("u", "T"), "u");
    assert_eq!(substitute_token("u%", "T"), "u%");
}

#[test]
fn placeholder_is_replaced_by_the_token() {
    assert_eq!(substitute_token("%u", "T"), "T");
    assert_eq!(substitute_token("out-%u.mp4", "abc"), "out-abc.mp4");
    assert_eq!(substitute_token("%uout", "abc"), "abcout");
    assert_eq!(substitute_token("out%u", "abc"), "outabc");
}

#[test]
fn every_placeholder_is_replaced() {
    assert_eq!(substitute_token("%u/%u", "x"), "x/x");
    assert_eq!(substitute_token("%u%u", "xy"), "xyxy");
    assert_eq!(substitute_token("a%ub%uc%u", ""), "abc");
}

#[test]
fn percent_before_a_placeholder_stays() {
    assert_eq!(substitute_token("%%u", "T"), "%T");
    assert_eq!(substitute_token("%%%u%", "T"), "%%T%");
    assert_eq!(substitute_token("%uu", "T"), "Tu");
}

#[test]
fn placeholder_is_case_sensitive() {
    assert_eq!(substitute_token("%U", "T"), "%U");
    assert_eq!(substitute_token("%d%s", "T"), "%d%s");
}

#[test]
fn token_is_not_read_again() {
    assert_eq!(substitute_token("%u", "%u"), "%u");
    assert_eq!(substitute_token("%%u", "u"), "%u");
    assert_eq!(substitute_token("%%uu", "%"), "%%u");
}

#[test]
fn characters_beyond_ascii_are_kept() {
    assert_eq!(substitute_token("é%uü", "ß"), "éßü");
    assert_eq!(substitute_token("日本%u語", "-"), "日本-語");
}

#[test]
fn substitution_agrees_with_str_replace() {
    let templates = [
        "", "%", "u", "%u", "%%u", "%u%", "%u%u", "a%ub", "%uu%", "%%", "x%%u%uy%", "é%uü%u",
    ];
    let tokens = ["", "T", "%", "u", "%u", "long-token"];
    for template in templates {
        for token in tokens {
            assert_eq!(substitute_token(template, token), template.replace("%u", token));
        }
    }
}

#[test]
fn different_tokens_give_different_texts() {
    let templates = ["%u", "a%ub", "%u%u", "%uX%u", "s3://bucket/%u/out-%u.mp4"];
    let tokens = ["", "X", "XX", "a", "b", "ab", "ba", "%u"];
    for template in templates {
        for first in tokens {
            for second in tokens {
                if first != second {
                    assert_ne!(
                        substitute_token(template, first),
                        substitute_token(template, second)
                    );
                }
            }
        }
    }
}
