use symphony::config::ConfigError;
use symphony::json::render_json;
use symphony::tame::is_tame_template;
use symphony::template::{finish_prompt, prompt_globals, render_prompt, TemplateFailure};
use symphony::types::{BlockerRef, Issue};

fn sample_issue() -> Issue {
    Issue {
        id: "abc123".into(),
        identifier: "MT-649".into(),
        title: "Fix login bug".into(),
        description: Some("Users cannot log in with SSO".into()),
        priority: Some(2),
        state: "In Progress".into(),
        branch_name: None,
        url: Some("https://linear.app/issue/MT-649".into()),
        labels: vec!["bug".into(), "p1".into()],
        blocked_by: vec![],
        created_at: None,
        updated_at: None,
    }
}

#[test]
fn test_render_simple_template() {
    let tmpl = "Fix issue {{ issue.identifier }}: {{ issue.title }}";
    let result = render_prompt(tmpl, &sample_issue(), None).unwrap();
    assert_eq!(result, "Fix issue MT-649: Fix login bug");
}

#[test]
fn test_render_with_attempt() {
    let tmpl = "Retry {{ issue.id }} attempt {{ attempt }}";
    let result = render_prompt(tmpl, &sample_issue(), Some(3)).unwrap();
    assert_eq!(result, "Retry abc123 attempt 3");
}

#[test]
fn test_render_with_null_attempt() {
    let tmpl = "{% if attempt == nil %}First run!{% else %}Retry {{ attempt }}{% endif %}";
    let result = render_prompt(tmpl, &sample_issue(), None).unwrap();
    assert_eq!(result, "First run!");
}

#[test]
fn test_unknown_variable_fails() {
    let tmpl = "Hello {{ nonexistent }}";
    let result = render_prompt(tmpl, &sample_issue(), None);
    assert!(result.is_err());
    assert!(matches!(result, Err(ConfigError::TemplateRenderError(_))));
}

#[test]
fn test_labels_rendering() {
    let tmpl = "Labels: {% for label in issue.labels %}{{ label }} {% endfor %}";
    let result = render_prompt(tmpl, &sample_issue(), None).unwrap();
    assert!(result.contains("bug"));
    assert!(result.contains("p1"));
}

#[test]
fn every_variable_can_be_rendered() {
    let mut issue = sample_issue();
    issue.branch_name = Some("b".into());
    issue.blocked_by = vec![BlockerRef {
        id: Some("x".into()),
        identifier: None,
        state: Some("Todo".into()),
    }];
    let tmpl = "{{ issue.description }}|{{ issue.priority }}|{{ issue.state }}|{{ issue.url }}|{{ issue.branch_name }}|{% for b in issue.blocked_by %}{{ b.id }}={{ b.state }}{% endfor %}";
    assert_eq!(
        render_prompt(tmpl, &issue, None).unwrap(),
        "Users cannot log in with SSO|2|In Progress|https://linear.app/issue/MT-649|b|x=Todo"
    );
    issue.priority = Some(-1);
    issue.description = None;
    assert_eq!(
        render_prompt("[{{ issue.description }}]{{ issue.priority }}", &issue, None).unwrap(),
        "[]-1"
    );
    issue.priority = None;
    assert!(render_prompt("{{ issue.priority }}", &issue, None).is_err());
}

#[test]
fn a_text_without_outputs_is_its_own_prompt() {
    let text = "\n Do it.\n\nThen (see ... above) { rest } 5% done \n";
    assert_eq!(
        render_prompt(text, &sample_issue(), None).unwrap(),
        text.trim()
    );
}

#[test]
fn what_is_no_template() {
    let result = render_prompt("{% if %}", &sample_issue(), None);
    assert!(matches!(result, Err(ConfigError::TemplateParseError(_))));
    let result = render_prompt("{{ issue.id | no_such_filter }}", &sample_issue(), None);
    assert!(matches!(result, Err(ConfigError::TemplateParseError(_))));
}

#[test]
fn renderings_become_prompts() {
    assert_eq!(finish_prompt(Ok(" a\n\nb \n".into())).unwrap(), "a\n\nb");
    assert_eq!(
        finish_prompt(Err(TemplateFailure::Parse("p".into())))
            .unwrap_err()
            .message(),
        "template_parse_error: p"
    );
    assert_eq!(
        finish_prompt(Err(TemplateFailure::Render("r".into())))
            .unwrap_err()
            .message(),
        "template_render_error: r"
    );
}

#[test]
fn variables_of_a_bare_issue() {
    let issue = Issue {
        id: "1".into(),
        identifier: "A-1".into(),
        title: "t".into(),
        description: None,
        priority: None,
        state: "Todo".into(),
        branch_name: None,
        url: None,
        labels: vec![],
        blocked_by: vec![],
        created_at: None,
        updated_at: None,
    };
    assert_eq!(
        render_json(&prompt_globals(&issue, None)),
        "{\"attempt\":null,\"issue\":{\"blocked_by\":[],\"description\":\"\",\"id\":\"1\",\"identifier\":\"A-1\",\"labels\":[],\"state\":\"Todo\",\"title\":\"t\"}}"
    );
}

#[test]
fn templates_that_count_are_not_tame() {
    assert!(is_tame_template("{{ issue.title | upcase }} 123456789012345678"));
    assert!(is_tame_template("1234567890123456789 | plus (1..2) it's {odd} 5% }}"));
    assert!(is_tame_template("{{ issue.labels[0] | default: '-' }}"));
    assert!(is_tame_template("{% if issue.description != \"\" %}x{% endif %}"));
    assert!(is_tame_template("{{ unclosed"));
    assert!(!is_tame_template("{{ 1234567890123456789 }}"));
    assert!(!is_tame_template("{{ issue.title | plus: 1 }}"));
    assert!(!is_tame_template("{{ issue.title |\n times: 2 }}"));
    assert!(is_tame_template("{{ attempt | timesheet }}"));
    assert!(!is_tame_template("{% for i in (1..attempt) %}{% endfor %}"));
    assert!(!is_tame_template("{% for i in (1..10000000) %}{% endfor %}"));
    assert!(!is_tame_template("{% for i in 1..2 %}{% endfor %}"));
    assert!(!is_tame_template("{% for i in (a1..2) %}{% endfor %}"));
    assert!(!is_tame_template("{% tablerow x in issue.labels cols:0 %}"));
    assert!(!is_tame_template("{%- cycle a: %}"));
    assert!(!is_tame_template("{% comment %}{% if a %}x"));
    assert!(!is_tame_template(&"{% if a %}".repeat(101)));
    assert!(is_tame_template(&"{% assign a = 1 %}".repeat(500)));
    assert!(is_tame_template(&"{{ attempt }}".repeat(2000)));
    assert!(!is_tame_template(&format!("{{{{ {} }}}}", "a[".repeat(21))));
    assert!(is_tame_template(&format!("{{{{ {} }}}}", "a".repeat(5000))));
    assert!(is_tame_template(&format!("{{{{ a{} }}}}", ".a".repeat(1000))));
    assert!(!is_tame_template(&format!("{{{{ a{} }}}}", ".a".repeat(1001))));
    assert!(is_tame_template(&format!("{{% case {} %}}", "a".repeat(1000))));
    for w in ["if", "elsif", "unless"] {
        assert!(!is_tame_template(&format!("{{% {w} {} %}}", "a".repeat(1000))));
    }
}

#[test]
fn a_hyphen_at_the_end_hides_no_name() {
    for template in [
        "{%comment-%}{%if a%}",
        "{% comment-%}{% if a %}",
        "{%-comment-%}{%if a%}{%endif%}",
        "{{ issue.title | abs-}}",
        "{{ issue.blocked_by | sort-}}",
        "{{ issue.title | plus: 1-}}",
        "{% assign x = issue.title | abs-%}",
        "{% assign x = issue.title | times: 2-%}",
    ] {
        assert!(!is_tame_template(template), "{template}");
    }
    let issue = sample_issue();
    assert_eq!(
        render_prompt("{%if attempt-%} a {%else-%} b {%endif-%} c", &issue, None).unwrap(),
        "b c"
    );
    assert_eq!(
        render_prompt("{{ issue.identifier | downcase-}} x", &issue, None).unwrap(),
        "mt-649x"
    );
}

#[test]
fn computations_that_cannot_overflow() {
    let mut issue = sample_issue();
    let render = |t: &str, i: &Issue, a: Option<u32>| {
        assert!(is_tame_template(t), "{t}");
        render_prompt(t, i, a)
    };
    assert_eq!(
        render("{{ attempt | plus: 1 }}", &issue, Some(u32::MAX)).unwrap(),
        "4294967296"
    );
    assert_eq!(
        render("{{- attempt | minus: 999999999999999999 -}}", &issue, Some(0)).unwrap(),
        "-999999999999999999"
    );
    assert!(render("{{ attempt | plus: 1 }}", &issue, None).is_err());
    issue.title = "9223372036854775807".into();
    assert_eq!(
        render("{{ issue.title | slice: -3, 3 }}", &issue, None).unwrap(),
        "807"
    );
    assert_eq!(
        render(
            "{{ issue.title | slice: 0, 999999999999999999 }}",
            &issue,
            None
        )
        .unwrap(),
        issue.title
    );
    assert_eq!(
        render("{{ issue.title | divided_by: 1000000000000 }}", &issue, None).unwrap(),
        "9223372"
    );
    assert!(render("{{ issue.title | modulo: 0 }}", &issue, None).is_err());
    issue.title = "-9223372036854775808".into();
    assert_eq!(
        render("{{ issue.title | modulo: 10 }}", &issue, None).unwrap(),
        "-8"
    );
    assert_eq!(
        render("{{ '2.6' | round }}", &issue, None).unwrap(),
        "3"
    );
    assert_eq!(
        render(
            "{{ issue.priority | plus: 1 }} {{ 7 | minus: 9 }} {{ issue.labels.size | plus: 1 }}",
            &issue,
            None
        )
        .unwrap(),
        "3 -2 3"
    );
    assert_eq!(
        render(
            "{{ attempt | times: -999999999 }} {{ attempt | modulo: -4 }} {{ 1.5 | abs }}",
            &issue,
            Some(u32::MAX)
        )
        .unwrap(),
        "-4294967290705032705 3 1.5"
    );
    assert_eq!(
        render("{% assign n = attempt | plus: 1 %}{{ n }}", &issue, Some(1)).unwrap(),
        "2"
    );
    assert_eq!(
        render(
            "{% for l in issue.labels %}{{ forloop.rindex | minus: 1 }}{{ l }} {% endfor %}",
            &issue,
            None
        )
        .unwrap(),
        "1bug 0p1"
    );
    for template in [
        "{{ issue.title | modulo: -1 }}",
        "{{ issue.title | divided_by: attempt }}",
        "{{ issue.title | slice: 0, issue.title }}",
        "{{ issue.title | slice: 0, - }}",
        "{{ issue.title | slice: 0, --1 }}",
        "{{ attempt | plus: 1 | plus: 1 }}",
        "{{ attempt | plus: issue.title }}",
        "{% assign issue = issue.title %}{{ issue.priority | plus: 1 }}",
        "{% for forloop in issue.labels %}{{ forloop.index | plus: 1 }}{% endfor %}",
        "{% increment attempt %}{{ attempt | plus: 1 }}",
        "{{ attempt | times: 1000000000 }}",
        "{{ issue.labels.size | times: 2 }}",
        "{{ x = issue.title | plus: 1 }}",
        "{{ issue.labels.first | plus: 1 }}",
        "{% assign attempt = issue.title %}{{ attempt | plus: 1 }}",
        "{%- for attempt in issue.labels %}{{ attempt | plus: 1 }}{% endfor %}",
        "{% capture attempt%}9{% endcapture %}{{ attempt | plus: 1 }}",
    ] {
        assert!(!is_tame_template(template), "{template}");
    }
}

#[test]
fn comments_cycles_and_ranges() {
    let issue = sample_issue();
    let render = |t: &str| {
        assert!(is_tame_template(t), "{t}");
        render_prompt(t, &issue, None)
    };
    assert_eq!(
        render("a{% comment %} {{ nothing | at_all }} {{ %} }} {%- endcomment -%} b").unwrap(),
        "ab"
    );
    assert_eq!(render("a{%comment%}{%endcomment%}b").unwrap(), "ab");
    assert!(matches!(
        render("a{% comment %} b"),
        Err(ConfigError::TemplateParseError(_))
    ));
    assert!(!is_tame_template("{% comment %}{%\tendcomment %}{% if a %}"));
    assert!(!is_tame_template("{% comment %}{% endcomment- %}{% if a %}"));
    assert!(!is_tame_template("{% comment %}{% endcomment"));
    assert_eq!(
        render("{% for l in issue.labels %}{{ l }}{% cycle ',', '.' %}{% endfor %}").unwrap(),
        "bug,p1."
    );
    assert_eq!(
        render("{% for i in (1..4) %}{{ i }}{% endfor %}").unwrap(),
        "1234"
    );
    assert_eq!(
        render("{% for i in ( 9999998 ..9999999) %}{{ i }} {% endfor %}").unwrap(),
        "9999998 9999999"
    );
    assert_eq!(
        render("{% for i in (1..issue.labels.size) %}{{ i }}{% endfor %}").unwrap(),
        "12"
    );
    assert!(!is_tame_template(
        "{% assign issue = 1 %}{% for i in (1..issue.labels.size) %}{% endfor %}"
    ));
    assert_eq!(
        render("{% for i in (1..3) %}{% cycle 'g': 'a', 'b' %}{% endfor %}").unwrap(),
        "aba"
    );
    for empty in ["{% cycle 'g': %}", "{%cycle g:-%}", "{% cycle g :\n%}"] {
        assert!(!is_tame_template(empty), "{empty}");
    }
    assert_eq!(
        render("a{% comment %}{% assign x = %}{% else %}{{ '{' }}{% endcomment %}b").unwrap(),
        "ab"
    );
    for held in ["raw", "if a", "for x in y", "case x", "comment", "ifchanged"] {
        let held = format!("{{% comment %}}{{% {held} %}}{{% endcomment %}}");
        assert!(!is_tame_template(&held), "{held}");
    }
    assert!(render("{% tablerow l in issue.labels cols: 1 limit: 9 %}{{ l }}{% endtablerow %}")
        .unwrap()
        .contains("<tr class=\"row2\"><td class=\"col1\">"));
    for cols in ["0", "attempt", "-1", "'1'", "01", "1234567890"] {
        let table = format!("{{% tablerow l in issue.labels cols:{cols} %}}");
        assert!(!is_tame_template(&table), "{table}");
    }
    assert!(render("{% tablerow l in issue.labels %}{{ l }}{% endtablerow %}")
        .unwrap()
        .contains("<td class=\"col2\">p1</td>"));
}

#[test]
fn labels_can_be_sorted() {
    let mut issue = sample_issue();
    issue.labels = vec!["b".into(), "10".into(), "B".into(), "9".into(), "".into(), "b".into()];
    let template = "{{ issue.labels | sort | join: ',' }}{% assign s = issue.labels | sort %}";
    assert!(is_tame_template(template));
    assert_eq!(
        render_prompt(template, &issue, None).unwrap(),
        ",10,9,B,b,b"
    );
    let template = "{{ issue.labels | sort: 'x' }}";
    assert!(is_tame_template(template));
    assert!(render_prompt(template, &issue, None).is_err());
    for template in [
        "{{ issue.blocked_by | sort }}",
        "{{ issue.labels | reverse | sort }}",
        "{% assign issue = attempt %}{{ issue.labels | sort }}",
    ] {
        assert!(!is_tame_template(template), "{template}");
    }
}

#[test]
fn deep_templates_are_rendered() {
    let issue = sample_issue();
    let path = format!("{{{{ issue.title{} }}}}", ".size".repeat(999));
    assert!(is_tame_template(&path));
    assert_eq!(render_prompt(&path, &issue, None).unwrap(), "1");
    let path = format!("{{{{ issue.title{}.x }}}}", ".size".repeat(998));
    assert!(render_prompt(&path, &issue, None).is_err());
    for long in [
        format!("{{% case 1 %}}{{% when 2{} %}}{{% else %}}x{{% endcase %}}", " or 2".repeat(5000)),
        format!("{{% assign y = 'x'{} %}}{{{{ y }}}}", " | strip".repeat(5000)),
        format!("{{% cycle 'x'{} %}}", ", 2".repeat(5000)),
    ] {
        assert!(is_tame_template(&long));
        assert_eq!(render_prompt(&long, &issue, None).unwrap(), "x");
    }
    let output = format!("{{{{ issue.id{} }}}}", " | append: 'a long text'".repeat(2000));
    assert!(is_tame_template(&output));
    assert_eq!(
        render_prompt(&output, &issue, None).unwrap().len(),
        6 + 2000 * 11
    );
    let long = format!("{{% if attempt == nil {} %}}x{{% endif %}}", "and 1 == 1 ".repeat(80));
    assert!(long.len() > 800);
    for (open, close) in [
        ("{% if attempt == nil %}", "{% endif %}"),
        ("{% for l in issue limit: 1 %}", "{% endfor %}"),
        ("{% for l in (1..1) %}", "{% endfor %}"),
        ("{% case 1 %}{% when 1 %}", "{% endcase %}"),
        ("{% if attempt %}y{% elsif true %}", "{% endif %}"),
    ] {
        let depth = if open.contains("elsif") { 49 } else { 99 };
        let deep = format!("{}{}{}", open.repeat(depth), long, close.repeat(depth));
        assert!(is_tame_template(&deep));
        assert_eq!(render_prompt(&deep, &issue, None).unwrap(), "x");
    }
    for (open, close) in [
        ("{% tablerow l in (1..1) %}", "{% endtablerow %}"),
        ("{% capture a %}", "{% endcapture %}"),
        ("{% ifchanged %}", "{% endifchanged %}"),
        ("{% unless attempt %}", "{% endunless %}"),
    ] {
        let deep = format!("{}{}{}", open.repeat(99), long, close.repeat(99));
        assert!(is_tame_template(&deep));
        assert!(render_prompt(&deep, &issue, None).is_ok());
    }
    let chain = format!("{{% if attempt %}}{}{{% endif %}}", "{% elsif attempt %}".repeat(99));
    assert!(is_tame_template(&chain));
    assert_eq!(render_prompt(&chain, &issue, None).unwrap(), "");
    let indexed = format!("{{{{ issue{}id{} }}}}", "[issue.".repeat(19), "]".repeat(19));
    assert!(is_tame_template(&indexed));
    assert!(render_prompt(&indexed, &issue, None).is_err());
}

#[test]
fn templates_with_stray_strings_are_not_tame() {
    assert!(!is_tame_template("{{ 'a\n{{ \"' }}{{ \" }}"));
    assert!(!is_tame_template("\u{e9}\u{e9}\u{e9}\u{e9}\u{e9}{{ 'x' }}{{ ' }}"));
    assert!(!is_tame_template("{{ '}}' }}"));
    assert!(!is_tame_template("{{ a {{ b }}"));
    assert!(is_tame_template("\u{e9}\n{{ 'x' }}{{ issue.title }}"));
    assert!(is_tame_template("\u{e9} {{ 'x' }} \u{e9}\n{{ issue.title }}"));
    assert!(is_tame_template("\u{e9} {{ 'x' }}\n{{- issue.title }}"));
    assert!(is_tame_template(
        "Gr\u{f6}\u{df}e: {{ a | default: 'x' }} und {{ b | default: \"y\" }}"
    ));
    assert!(!is_tame_template("\u{5927}\u{5c0f}{{ 'x' }}{{ b }}"));
    assert!(is_tame_template("\u{5927}\u{5c0f}{{ a }}{{ b }}"));
    assert!(!is_tame_template("\u{1f600}\u{1f600} {{ 'x' }} \n {%- if a %}"));
    assert!(is_tame_template("{{ '{' }}{{ '%' }}"));
    assert!(!is_tame_template("{{ '{%' }}"));
    assert!(!is_tame_template("{{{ a }}"));
    assert_eq!(
        render_prompt(
            "\u{e9} {{ issue.url | default: 'n\u{e9}ant' }}!\n{{ issue.identifier }}",
            &sample_issue(),
            None
        )
        .unwrap(),
        "\u{e9} https://linear.app/issue/MT-649!\nMT-649"
    );
    assert!(is_tame_template("\u{e9} don't {{ issue.title }} \"so\""));
    assert!(matches!(
        render_prompt("\u{e9}\n{{ 'x' }}{{ ' ", &sample_issue(), None),
        Err(ConfigError::TemplateParseError(_))
    ));
    assert!(matches!(
        render_prompt("\u{e9}\u{e9}{{ issue.title }}{{ ", &sample_issue(), None),
        Err(ConfigError::TemplateParseError(_))
    ));
}

#[test]
fn simple_templates_are_filled_in() {
    let mut issue = sample_issue();
    issue.title = "{{ attempt }} \u{e9}\u{1f600}\n".into();
    issue.priority = Some(-7);
    assert_eq!(
        render_prompt(
            "} {{ issue.title }}}|{{ issue.priority }}|{{ attempt }}|{{ issue.url }}% ",
            &issue,
            Some(u32::MAX)
        )
        .unwrap(),
        "} {{ attempt }} \u{e9}\u{1f600}\n}|-7|4294967295|https://linear.app/issue/MT-649%"
    );
    assert_eq!(
        render_prompt("[{{ attempt }}]", &issue, None).unwrap(),
        "[]"
    );
    assert_eq!(
        render_prompt(
            "{\"a\": {{issue.id}}, {{  issue.priority}},{{\n\r\nattempt\n}}}",
            &issue,
            Some(2)
        )
        .unwrap(),
        "{\"a\": abc123, -7,2}"
    );
    for simple in ["{{x}}}", "}{{\n\n\rx.y_9 }}{ ", "a{{x}}{{y}}b"] {
        assert!(is_tame_template(simple), "{simple}");
    }
    assert!(is_tame_template(&format!("{{{{a{}}}}}", ".b".repeat(999))));
    assert!(!is_tame_template("{{ a1234567890123456789 }}"));
    for unknown in [
        "{{nothing}}",
        "{{\n issue.nothing\r}}",
        "{{ issues }}",
        "{{ issue.Title }}",
        "{{ issue.title.x }}",
        "{{ issue.labels.x }}",
        "{{ attempt.x }}",
        "{{ issue.branch_name }}",
        "{{ _x }}",
    ] {
        assert!(matches!(
            render_prompt(unknown, &issue, None),
            Err(ConfigError::TemplateRenderError(_))
        ));
    }
}
