use promptosaurus::field_map::FieldMap;
use promptosaurus::prompt_styles::{
    default_field_order, render_fields, FieldLayout, MarkdownPromptStyle, PromptStyle, StyleKind,
    UnknownStyle, XmlPromptStyle, YamlPromptStyle,
};

fn fields(entries: &[(&str, &str)]) -> FieldMap {
    let mut map = FieldMap::new();
    for (name, value) in entries {
        map.insert(name.to_string(), value.to_string());
    }
    map
}

fn role_and_task() -> FieldMap {
    fields(&[("Role", "Test Role"), ("Task", "Test Task")])
}

#[test]
fn test_xml_prompt_style() {
    let style = XmlPromptStyle;
    let mut input_map = FieldMap::new();

    input_map.insert("Role".to_string(), "Educational content writer".to_string());
    input_map.insert("Task".to_string(), "Explain photosynthesis".to_string());

    let result = style.format(&input_map, None);

    assert!(result.contains("<Role>Educational content writer</Role>"));
    assert!(result.contains("<Task>Explain photosynthesis</Task>"));

    // Test with empty values
    input_map.insert("Context".to_string(), "".to_string());
    let result = style.format(&input_map, None);
    assert!(!result.contains("<Context>"));

    // Test with custom order
    let custom_order = vec!["Task", "Role"];
    let result = style.format(&input_map, Some(custom_order));

    // The Task should come before Role in the output
    assert!(result.find("<Task>").unwrap() < result.find("<Role>").unwrap());
}

#[test]
fn test_markdown_prompt_style() {
    let style = MarkdownPromptStyle;
    let mut input_map = FieldMap::new();

    input_map.insert("Role".to_string(), "Educational content writer".to_string());
    input_map.insert("Task".to_string(), "Explain photosynthesis".to_string());

    let result = style.format(&input_map, None);

    assert!(result.contains("# Role"));
    assert!(result.contains("Educational content writer"));
    assert!(result.contains("# Task"));
    assert!(result.contains("Explain photosynthesis"));

    // Test with empty values
    input_map.insert("Context".to_string(), "".to_string());
    let result = style.format(&input_map, None);
    assert!(!result.contains("# Context"));

    // Test with custom order
    let custom_order = vec!["Task", "Role"];
    let result = style.format(&input_map, Some(custom_order));

    // The Task should come before Role in the output
    assert!(result.find("# Task").unwrap() < result.find("# Role").unwrap());
}

#[test]
fn test_yaml_prompt_style() {
    let style = YamlPromptStyle;
    let mut input_map = FieldMap::new();

    input_map.insert("Role".to_string(), "Educational content writer".to_string());
    input_map.insert("Task".to_string(), "Explain photosynthesis".to_string());

    let result = style.format(&input_map, None);

    assert!(result.contains("role: Educational content writer"));
    assert!(result.contains("task: Explain photosynthesis"));

    // Test with empty values
    input_map.insert("Context".to_string(), "".to_string());
    let result = style.format(&input_map, None);
    assert!(!result.contains("context:"));

    // Test with custom order
    let custom_order = vec!["Task", "Role"];
    let result = style.format(&input_map, Some(custom_order));

    // The Task should come before Role in the output
    assert!(result.find("task:").unwrap() < result.find("role:").unwrap());

    // Test with multi-line content
    input_map.insert(
        "Constraints".to_string(),
        "- Use simple language.\n- Include analogies.\n- Limit to 500 words.".to_string(),
    );
    let result = style.format(&input_map, None);

    assert!(result.contains("constraints: |"));
    assert!(result.contains("  - Use simple language."));
    assert!(result.contains("  - Include analogies."));
    assert!(result.contains("  - Limit to 500 words."));
}

#[test]
fn tag_style_writes_one_field_per_line() {
    let out = XmlPromptStyle.format(&role_and_task(), Some(vec!["Role", "Task"]));
    assert_eq!(out, "<Role>Test Role</Role>\n<Task>Test Task</Task>");
}

#[test]
fn tag_style_keeps_inner_line_feeds() {
    let map = fields(&[("Task", "  first\n  second \n")]);
    let out = XmlPromptStyle.format(&map, Some(vec!["Task"]));
    assert_eq!(out, "<Task>first\n  second</Task>");
}

#[test]
fn heading_style_separates_with_one_blank_line() {
    let out = MarkdownPromptStyle.format(&role_and_task(), Some(vec!["Role", "Task"]));
    assert_eq!(out, "# Role\n\nTest Role\n\n# Task\n\nTest Task\n");
    assert!(out.find("# Role").unwrap() < out.find("Test Role").unwrap());
    assert!(out.find("# Task").unwrap() < out.find("Test Task").unwrap());
    assert!(out.contains("# Role\n\nTest Role"));
    assert!(out.contains("# Task\n\nTest Task"));
    assert!(!out.contains("\n\n\n"));
}

#[test]
fn heading_style_single_field() {
    let map = fields(&[("Role", "x")]);
    let out = MarkdownPromptStyle.format(&map, Some(vec!["Role"]));
    assert_eq!(out, "# Role\n\nx\n");
}

#[test]
fn key_value_style_single_line() {
    let out = YamlPromptStyle.format(&role_and_task(), Some(vec!["Role", "Task"]));
    assert_eq!(out, "role: Test Role\ntask: Test Task");
}

#[test]
fn key_value_style_block_for_several_lines() {
    let map = fields(&[("Constraints", "- First constraint\n- Second constraint")]);
    let out = YamlPromptStyle.format(&map, None);
    assert!(out.contains("constraints: |\n  - First constraint\n  - Second constraint"));
    assert_eq!(out, "constraints: |\n  - First constraint\n  - Second constraint");
}

#[test]
fn key_value_style_block_between_other_fields() {
    let map = fields(&[("Role", "r"), ("Task", "a\n\nb"), ("Context", "c")]);
    let out = YamlPromptStyle.format(&map, None);
    assert_eq!(out, "role: r\ntask: |\n  a\n  \n  b\ncontext: c");
}

#[test]
fn key_value_style_decides_on_the_trimmed_value() {
    let map = fields(&[("Role", "\n one line \n")]);
    let out = YamlPromptStyle.format(&map, Some(vec!["Role"]));
    assert_eq!(out, "role: one line");
}

#[test]
fn key_value_style_drops_carriage_return_before_line_feed() {
    let map = fields(&[("Task", "a\r\nb\rc\r\n\r\nd")]);
    let out = YamlPromptStyle.format(&map, Some(vec!["Task"]));
    assert_eq!(out, "task: |\n  a\n  b\rc\n  \n  d");
}

#[test]
fn key_value_style_does_not_escape() {
    let map = fields(&[("Role", "a: \"b\" # c")]);
    let out = YamlPromptStyle.format(&map, Some(vec!["Role"]));
    assert_eq!(out, "role: a: \"b\" # c");
}

#[test]
fn key_value_style_lowercases_the_key() {
    let map = fields(&[("ROLE", "r"), ("\u{c4}Ber", "s")]);
    let out = YamlPromptStyle.format(&map, Some(vec!["ROLE", "\u{c4}Ber"]));
    assert_eq!(out, "role: r\n\u{e4}ber: s");
    assert_eq!(YamlPromptStyle.encode_field("Task", "t"), "task: t\n");
}

#[test]
fn default_order_is_role_task_context_constraints() {
    assert_eq!(default_field_order(), vec!["Role", "Task", "Context", "Constraints"]);
    let map = fields(&[
        ("Constraints", "d"),
        ("Context", "c"),
        ("Task", "b\nb"),
        ("Role", "a"),
        ("Other", "e"),
    ]);
    let explicit = vec!["Role", "Task", "Context", "Constraints"];
    assert_eq!(
        XmlPromptStyle.format(&map, None),
        XmlPromptStyle.format(&map, Some(explicit.clone()))
    );
    assert_eq!(
        MarkdownPromptStyle.format(&map, None),
        MarkdownPromptStyle.format(&map, Some(explicit.clone()))
    );
    assert_eq!(
        YamlPromptStyle.format(&map, None),
        YamlPromptStyle.format(&map, Some(explicit))
    );
    assert_eq!(
        XmlPromptStyle.format(&map, None),
        "<Role>a</Role>\n<Task>b\nb</Task>\n<Context>c</Context>\n<Constraints>d</Constraints>"
    );
}

#[test]
fn custom_order_puts_task_before_role() {
    let map = role_and_task();
    let xml = XmlPromptStyle.format(&map, Some(vec!["Task", "Role"]));
    assert_eq!(xml, "<Task>Test Task</Task>\n<Role>Test Role</Role>");
    let markdown = MarkdownPromptStyle.format(&map, Some(vec!["Task", "Role"]));
    assert_eq!(markdown, "# Task\n\nTest Task\n\n# Role\n\nTest Role\n");
    let yaml = YamlPromptStyle.format(&map, Some(vec!["Task", "Role"]));
    assert_eq!(yaml, "task: Test Task\nrole: Test Role");
}

#[test]
fn reordering_moves_blocks_and_leaves_them_as_they_are() {
    let map = fields(&[("Role", " a "), ("Task", "b\nc"), ("Context", "d")]);
    let names = ["Role", "Task", "Context"];
    let orders: [[usize; 3]; 6] =
        [[0, 1, 2], [0, 2, 1], [1, 0, 2], [1, 2, 0], [2, 0, 1], [2, 1, 0]];
    let styles = [StyleKind::Xml, StyleKind::Markdown, StyleKind::Yaml];
    for style in styles {
        let blocks: Vec<String> =
            names.iter().map(|name| style.encode_field(name, map.get(name).unwrap().trim())).collect();
        for picks in orders {
            let order: Vec<&str> = picks.iter().map(|&i| names[i]).collect();
            let mut expected = String::new();
            for &i in picks.iter() {
                expected.push_str(&blocks[i]);
            }
            expected.pop();
            assert_eq!(style.format(&map, Some(order)), expected);
        }
    }
}

#[test]
fn order_may_repeat_and_name_unknown_fields() {
    let map = fields(&[("Role", "a"), ("Extra", "e")]);
    let out = XmlPromptStyle.format(&map, Some(vec!["Extra", "Missing", "Role", "Extra"]));
    assert_eq!(out, "<Extra>e</Extra>\n<Role>a</Role>\n<Extra>e</Extra>");
}

#[test]
fn nothing_to_render_gives_the_empty_string() {
    let empty = FieldMap::new();
    let blank = fields(&[("Role", ""), ("Task", "  \t\n"), ("Other", "kept out")]);
    for style in [StyleKind::Xml, StyleKind::Markdown, StyleKind::Yaml] {
        assert_eq!(style.format(&empty, None), "");
        assert_eq!(style.format(&blank, None), "");
        assert_eq!(style.format(&blank, Some(vec![])), "");
        assert_eq!(style.format(&role_and_task(), Some(vec![])), "");
        assert_eq!(style.format(&role_and_task(), Some(vec!["Context"])), "");
    }
    assert_eq!(XmlPromptStyle.format(&blank, None), "");
    assert_eq!(MarkdownPromptStyle.format(&blank, None), "");
    assert_eq!(YamlPromptStyle.format(&blank, None), "");
}

#[test]
fn whitespace_only_value_is_as_good_as_absent() {
    let absent = fields(&[("Role", "a"), ("Context", "c")]);
    for blank in ["", " ", "\n", "\r\n", " \t \n ", "\u{a0}\u{2003}\u{3000}", "\u{85}\u{2028}"] {
        let present = fields(&[("Role", "a"), ("Task", blank), ("Context", "c")]);
        for style in [StyleKind::Xml, StyleKind::Markdown, StyleKind::Yaml] {
            assert_eq!(style.format(&present, None), style.format(&absent, None));
        }
    }
}

#[test]
fn output_of_tag_and_key_value_styles_has_no_final_line_feed() {
    let maps = [
        role_and_task(),
        fields(&[("Role", "a\nb\n")]),
        fields(&[("Constraints", "\n- x\n- y\n\n")]),
        fields(&[("Role", "a"), ("Task", ""), ("Context", "c\r\nd")]),
    ];
    for map in maps.iter() {
        for style in [StyleKind::Xml, StyleKind::Yaml] {
            let out = style.format(map, None);
            assert!(!out.is_empty());
            assert!(!out.ends_with('\n'));
        }
        let out = StyleKind::Markdown.format(map, None);
        assert!(out.ends_with('\n'));
        assert!(!out.ends_with("\n\n"));
    }
}

#[test]
fn kind_is_selected_by_its_exact_name() {
    assert_eq!(StyleKind::from_name("Xml"), Ok(StyleKind::Xml));
    assert_eq!(StyleKind::from_name("Markdown"), Ok(StyleKind::Markdown));
    assert_eq!(StyleKind::from_name("Yaml"), Ok(StyleKind::Yaml));
    for unknown in ["", "xml", "XML", "Xml ", "Yam", "Yamll", "Json", "Mark", "markdown"] {
        assert_eq!(
            StyleKind::from_name(unknown),
            Err(UnknownStyle { selector: unknown.to_string() })
        );
    }
}

#[test]
fn default_kind_is_the_tag_style() {
    assert_eq!(StyleKind::default(), StyleKind::Xml);
}

#[test]
fn kind_renders_as_the_style_it_names() {
    let map = fields(&[("Role", "a"), ("Task", "b\nc"), ("Constraints", " d ")]);
    assert_eq!(StyleKind::Xml.format(&map, None), XmlPromptStyle.format(&map, None));
    assert_eq!(StyleKind::Markdown.format(&map, None), MarkdownPromptStyle.format(&map, None));
    assert_eq!(StyleKind::Yaml.format(&map, None), YamlPromptStyle.format(&map, None));
    assert_eq!(render_fields(&XmlPromptStyle, &map, None), XmlPromptStyle.format(&map, None));
}

#[test]
fn blocks_of_each_style() {
    assert_eq!(XmlPromptStyle.encode_field("Role", "v"), "<Role>v</Role>\n");
    assert_eq!(MarkdownPromptStyle.encode_field("Role", "v"), "# Role\n\nv\n\n");
    assert_eq!(YamlPromptStyle.encode_field("Role", "v"), "role: v\n");
    assert_eq!(YamlPromptStyle.encode_field("Role", "v\nw"), "role: |\n  v\n  w\n");
}
