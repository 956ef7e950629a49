use symphony::json::{parse_json, render_json, render_json_pretty, Json, JsonNumber};

#[test]
fn values_are_read_as_they_are_written() {
    let j = parse_json(" {\"b\":[1,-2,true,null,\"x\\n\"],\"a\":{}} ").unwrap();
    assert_eq!(render_json(&j), "{\"a\":{},\"b\":[1,-2,true,null,\"x\\n\"]}");
    let b = j.get("b").unwrap().as_list().unwrap();
    assert_eq!(b[0].as_u64(), Some(1));
    assert_eq!(b[0].as_i64(), Some(1));
    assert_eq!(b[1].as_u64(), None);
    assert_eq!(b[1].as_i64(), Some(-2));
    assert_eq!(b[2].as_bool(), Some(true));
    assert_eq!(b[3], Json::Null);
    assert_eq!(b[4].as_text(), Some("x\n"));
    assert_eq!(j.get("c"), None);
    assert_eq!(b[0].get("c"), None);
}

#[test]
fn what_is_no_json_is_not_read() {
    for s in ["", "{", "nul", "{\"a\":1,}", "[1] 2", "plain text"] {
        assert_eq!(parse_json(s), None, "{s}");
    }
}

#[test]
fn fractions_are_cut_off_for_small_integers() {
    let j = parse_json("[2.9,-2.9,1e99,-1e99,3,18446744073709551615,-9000000000]").unwrap();
    let numbers: Vec<Option<i32>> = j.as_list().unwrap().iter().map(|n| n.as_i32()).collect();
    assert_eq!(
        numbers,
        vec![
            Some(2),
            Some(-2),
            Some(i32::MAX),
            Some(i32::MIN),
            Some(3),
            Some(i32::MAX),
            Some(i32::MIN)
        ]
    );
    assert_eq!(render_json(&parse_json("[2.5]").unwrap()), "[2.5]");
    assert_eq!(parse_json("\"3\"").unwrap().as_i32(), None);
}

#[test]
fn members_are_stored_by_their_keys() {
    let j = Json::object()
        .with("z", Json::unsigned(1))
        .with("a", Json::text("first"))
        .with("a", Json::text("last"));
    assert_eq!(render_json(&j), "{\"a\":\"last\",\"z\":1}");
    assert_eq!(
        render_json(&Json::Number(JsonNumber::Negative(5))),
        "5"
    );
    assert_eq!(render_json(&Json::signed(-5)), "-5");
}

#[test]
fn a_plain_value_comes_back_from_one_line() {
    let j = Json::object()
        .with("a", Json::list(vec![Json::text("x\ny"), Json::Null]))
        .with("b", Json::Bool(false));
    let line = render_json(&j);
    assert!(!line.contains('\n'));
    assert_eq!(parse_json(&line), Some(j));
}

#[test]
fn several_lines_for_people() {
    let j = Json::object().with("a", Json::list(vec![Json::unsigned(1)]));
    assert_eq!(render_json_pretty(&j), "{\n  \"a\": [\n    1\n  ]\n}");
}
