use builder_jobsrv::text::{origin_of, short_ident};

#[test]
fn short_names_join_origin_and_name() {
    assert_eq!(short_ident(&"core".to_string(), &"redis".to_string()), "core/redis");
    assert_eq!(short_ident(&"".to_string(), &"".to_string()), "/");
}

#[test]
fn origin_stands_before_the_first_slash() {
    assert_eq!(origin_of(&"core/redis".to_string()), "core");
    assert_eq!(origin_of(&"core/redis/3.2.4".to_string()), "core");
    assert_eq!(origin_of(&"/redis".to_string()), "");
    assert_eq!(origin_of(&"redis".to_string()), "redis");
    assert_eq!(origin_of(&"".to_string()), "");
    assert_eq!(origin_of(&"\u{f6}rigin/p\u{e4}ckage".to_string()), "\u{f6}rigin");
}

#[test]
fn origin_of_a_short_name_is_its_origin() {
    let short = short_ident(&"acme".to_string(), &"tool/extra".to_string());
    assert_eq!(origin_of(&short), "acme");
}
