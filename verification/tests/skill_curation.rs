use oben_gateway::skill_curation::{skill_for_tool, LearnedSkill, SkillCurator};

#[test]
fn test_top_tools_ranks_by_count() {
    let mut c = SkillCurator::new();
    for _ in 0..2 {
        c.record_tool_usage("shell");
    }
    for _ in 0..5 {
        c.record_tool_usage("http");
    }
    c.record_tool_usage("file_read");
    let top = c.top_tools(2);
    assert_eq!(top, vec![("http".to_string(), 5), ("shell".to_string(), 2)]);
    let all = c.top_tools(10);
    assert_eq!(all.len(), 3);
    assert_eq!(all[2], ("file_read".to_string(), 1));
    assert!(c.top_tools(0).is_empty());
}

#[test]
fn test_review_without_frequent_tool_learns_nothing() {
    let mut c = SkillCurator::new();
    c.record_tool_usage("shell");
    c.record_tool_usage("shell");
    assert!(c.review_conversation("conv-1", &[]).is_none());
    assert!(c.learned_skills().is_empty());
}

#[test]
fn test_review_suggests_skill_for_frequent_tool() {
    let mut c = SkillCurator::new();
    c.record_tool_usage("web_search");
    for _ in 0..3 {
        c.record_tool_usage("shell");
    }
    let skill = c.review_conversation("conv-2", &["shell".to_string()]).unwrap();
    assert_eq!(skill.name, "auto-skill-shell");
    assert_eq!(skill.description, "Automates repeated use of 'shell' tool");
    assert_eq!(skill.category, "auto-generated");
    assert_eq!(
        skill.instructions,
        "When the user needs to perform tasks related to 'shell', use the appropriate tool calls directly."
    );
    assert_eq!(c.learned_skills().len(), 1);
    assert_eq!(c.learned_skills()[0].name, "auto-skill-shell");
}

#[test]
fn test_add_skill_appends() {
    let mut c = SkillCurator::new();
    c.add_skill(LearnedSkill {
        name: "mine".to_string(),
        description: "d".to_string(),
        category: "user".to_string(),
        instructions: "i".to_string(),
    });
    c.add_skill(skill_for_tool("grep"));
    let names: Vec<&str> = c.learned_skills().iter().map(|s| s.name.as_str()).collect();
    assert_eq!(names, vec!["mine", "auto-skill-grep"]);
}
