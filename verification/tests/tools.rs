use desky::tools::{
    top_by_memory, unknown_tool_message, GetSystemInfoTool, ListProcessesOptions,
    ListProcessesTool, RegisteredTool, ToolError, ToolRegistry,
};

#[test]
fn registry_finds_tools_by_name() {
    let r = ToolRegistry::new();
    assert_eq!(
        r.get("get_system_info"),
        Some(RegisteredTool::SystemInfo(GetSystemInfoTool))
    );
    assert_eq!(
        r.get("list_processes"),
        Some(RegisteredTool::Processes(ListProcessesTool))
    );
    assert_eq!(r.get("rm_rf"), None);
    assert_eq!(r.get(""), None);
    let names: Vec<&str> = r.entries().iter().map(|t| t.name()).collect();
    assert_eq!(names, vec!["get_system_info", "list_processes"]);
    assert!(!r.is_display_panel("get_system_info"));
    assert!(!r.is_display_panel("nope"));
    assert_eq!(ToolRegistry::default().entries().len(), 2);
}

#[test]
fn tool_descriptions() {
    assert!(GetSystemInfoTool.description().starts_with("Get information about the host machine"));
    assert!(ListProcessesTool.description().contains("highest first"));
    assert!(!GetSystemInfoTool.is_display_panel());
    assert!(!ListProcessesTool.is_display_panel());
    let e = ToolError("boom".to_string());
    assert_eq!(e.0, "boom");
}

#[test]
fn blank_or_invalid_arguments_mean_the_defaults() {
    for raw in ["", "   \n", "{not json", "null", "[1,2]", "\"cpu\""] {
        let o = ListProcessesOptions::from_args(raw);
        assert_eq!(o.sort_by, "memory", "{raw}");
        assert_eq!(o.limit, 10, "{raw}");
    }
}

#[test]
fn unknown_tool_text() {
    assert_eq!(unknown_tool_message("frobnicate"), "unknown tool: frobnicate");
}

#[test]
fn list_processes_options_defaults_and_clamping() {
    let o = ListProcessesOptions::from_fields(None, None);
    assert_eq!(o.sort_by, "memory");
    assert_eq!(o.limit, 10);
    assert!(!o.by_cpu());
    assert_eq!(ListProcessesOptions::from_fields(None, Some(0)).limit, 1);
    assert_eq!(ListProcessesOptions::from_fields(None, Some(1000)).limit, 100);
    assert_eq!(ListProcessesOptions::from_fields(None, Some(37)).limit, 37);
    assert!(ListProcessesOptions::from_fields(Some("cpu".to_string()), None).by_cpu());
    assert!(!ListProcessesOptions::from_fields(Some("CPU".to_string()), None).by_cpu());
}

#[test]
fn list_processes_options_from_json_arguments() {
    let o = ListProcessesOptions::from_args(r#"{"sort_by":"cpu","limit":5}"#);
    assert_eq!(o.sort_by, "cpu");
    assert_eq!(o.limit, 5);
    assert!(o.by_cpu());
    let o = ListProcessesOptions::from_args(r#"{"sort_by":7,"limit":-2}"#);
    assert_eq!(o.sort_by, "memory");
    assert_eq!(o.limit, 10);
    let o = ListProcessesOptions::from_args(r#" {"limit": 3} "#);
    assert_eq!(o.sort_by, "memory");
    assert_eq!(o.limit, 3);
    let o = ListProcessesOptions::from_args(r#"{"sort_by":"name","limit":0}"#);
    assert_eq!(o.sort_by, "name");
    assert!(!o.by_cpu());
    assert_eq!(o.limit, 1);
    assert_eq!(ListProcessesOptions::from_args(r#"{"limit":250}"#).limit, 100);
    assert_eq!(ListProcessesOptions::from_args(r#"{"limit":2.5}"#).limit, 10);
}

#[test]
fn top_by_memory_is_a_stable_descending_prefix() {
    let memory = vec![10, 50, 20, 50, 5, 20];
    assert_eq!(top_by_memory(&memory, 3), vec![1, 3, 2]);
    assert_eq!(top_by_memory(&memory, 100), vec![1, 3, 2, 5, 0, 4]);
    assert_eq!(top_by_memory(&memory, 0), Vec::<usize>::new());
    assert!(top_by_memory(&Vec::new(), 10).is_empty());
    let mut expected: Vec<usize> = (0..memory.len()).collect();
    expected.sort_by_key(|&i| std::cmp::Reverse(memory[i]));
    assert_eq!(top_by_memory(&memory, memory.len()), expected);
}
