//! What the commands for the native host print.

use vstd::prelude::*;

use crate::config_store::start;
use crate::events::wire::no_members;
use crate::json::{
    add_member, add_value, array, list, object, one_member, out_members_view, outs_view, put,
    record, start_record, text_or_null, values_view, JsonOut, JsonValue, JsonView, OutView,
};
use crate::native::{
    app_executable, configuration_name, executable_path, platform_name, tools_view, DoctorView,
    NativeConfiguration, NativeDoctor, NativeFacts, NativePlatform, NativeStatus, NativeStatusView,
    NativeToolStatus, ToolView,
};
use crate::text::{opt_text, texts};

verus! {

/// The record of where the native host stands.
pub open spec fn status_record(s: NativeStatusView) -> OutView {
    let r = Seq::<(Seq<char>, OutView)>::empty();
    let r = r + one_member("platform"@, JsonView::Text(platform_name(s.platform)));
    let r = r + one_member("cef_sdk_root"@, JsonView::Text(s.cef_sdk_root));
    let r = r + one_member("cef_sdk_present"@, JsonView::Bool(s.cef_sdk_present));
    let r = r + one_member("build_dir"@, JsonView::Text(s.build_dir));
    let r = r + one_member("configure_artifact"@, JsonView::Text(s.configure_artifact));
    let r = r + one_member("configure_artifact_present"@, JsonView::Bool(s.configure_artifact_present));
    let r = r + one_member("default_app_dir"@, JsonView::Text(s.default_app_dir));
    let r = r + one_member("default_app_dir_present"@, JsonView::Bool(s.default_app_dir_present));
    let r = r + one_member("default_app_executable"@, JsonView::Text(s.default_app_executable));
    let r = r + one_member("default_app_executable_present"@, JsonView::Bool(s.default_app_executable_present));
    let r = r + one_member("default_host_library"@, JsonView::Text(s.default_host_library));
    let r = r + one_member("default_host_library_present"@, JsonView::Bool(s.default_host_library_present));
    OutView::Record(r)
}

/// The JSON form of the paths of the native host.
pub open spec fn paths_json(s: NativeStatusView) -> JsonView {
    JsonView::Object(
        no_members().insert(
            "platform"@,
            JsonView::Text(platform_name(s.platform)),
        ).insert(
            "cef_sdk_root"@,
            JsonView::Text(s.cef_sdk_root),
        ).insert(
            "configure_artifact"@,
            JsonView::Text(s.configure_artifact),
        ).insert(
            "default_app_dir"@,
            JsonView::Text(s.default_app_dir),
        ).insert(
            "default_app_executable"@,
            JsonView::Text(s.default_app_executable),
        ).insert(
            "default_host_library"@,
            JsonView::Text(s.default_host_library),
        ),
    )
}

/// The record of a tool.
pub open spec fn tool_record(t: ToolView) -> OutView {
    OutView::Record(
        one_member("name"@, JsonView::Text(t.name)) + one_member(
            "found"@,
            JsonView::Bool(t.found),
        ),
    )
}

/// The records of a list of tools.
pub open spec fn tool_records(tools: Seq<ToolView>) -> Seq<OutView> {
    Seq::new(tools.len(), |i: int| tool_record(tools[i]))
}

/// The JSON form of a list of texts.
pub open spec fn texts_json(list: Seq<Seq<char>>) -> JsonView {
    JsonView::Array(Seq::new(list.len(), |i: int| JsonView::Text(list[i])))
}

/// The record of what a check of the native host comes to.
pub open spec fn doctor_record(d: DoctorView) -> OutView {
    let r = seq![("status"@, status_record(d.status))];
    let r = r + one_member("canonical_install_dir"@, text_or_null(d.canonical_install_dir));
    let r = r + one_member("canonical_install_app_executable"@, text_or_null(d.canonical_install_app_executable));
    let r = r + one_member("canonical_install_cli"@, text_or_null(d.canonical_install_cli));
    let r = r + one_member("canonical_install_host_library"@, text_or_null(d.canonical_install_host_library));
    let r = r + one_member("workspace_app_dir"@, JsonView::Text(d.workspace_app_dir));
    let r = r + one_member("workspace_app_executable"@, JsonView::Text(d.workspace_app_executable));
    let r = r + one_member("workspace_app_executable_present"@, JsonView::Bool(d.workspace_app_executable_present));
    let r = r + one_member("workspace_host_library"@, JsonView::Text(d.workspace_host_library));
    let r = r + one_member("workspace_host_library_present"@, JsonView::Bool(d.workspace_host_library_present));
    let r = r.push(("required_tools"@, OutView::List(tool_records(d.required_tools))));
    let r = r + one_member("missing_tools"@, texts_json(d.missing_tools));
    let r = r + one_member("ready_for_configure"@, JsonView::Bool(d.ready_for_configure));
    let r = r + one_member("ready_for_build"@, JsonView::Bool(d.ready_for_build));
    let r = r + one_member("ready_for_install"@, JsonView::Bool(d.ready_for_install));
    let r = r + one_member("notes"@, texts_json(d.notes));
    OutView::Record(r)
}

/// The record of where the native host stands.
pub fn status_reply(status: &NativeStatus) -> (res: JsonOut)
    ensures
        res@ == status_record(status@),
{
    let mut members = start_record();
    add_value(&mut members, "platform", JsonValue::text(status.platform.as_str()));
    add_value(&mut members, "cef_sdk_root", JsonValue::text(status.cef_sdk_root.as_str()));
    add_value(&mut members, "cef_sdk_present", JsonValue::Bool(status.cef_sdk_present));
    add_value(&mut members, "build_dir", JsonValue::text(status.build_dir.as_str()));
    add_value(
        &mut members,
        "configure_artifact",
        JsonValue::text(status.configure_artifact.as_str()),
    );
    add_value(
        &mut members,
        "configure_artifact_present",
        JsonValue::Bool(status.configure_artifact_present),
    );
    add_value(&mut members, "default_app_dir", JsonValue::text(status.default_app_dir.as_str()));
    add_value(
        &mut members,
        "default_app_dir_present",
        JsonValue::Bool(status.default_app_dir_present),
    );
    add_value(
        &mut members,
        "default_app_executable",
        JsonValue::text(status.default_app_executable.as_str()),
    );
    add_value(
        &mut members,
        "default_app_executable_present",
        JsonValue::Bool(status.default_app_executable_present),
    );
    add_value(
        &mut members,
        "default_host_library",
        JsonValue::text(status.default_host_library.as_str()),
    );
    add_value(
        &mut members,
        "default_host_library_present",
        JsonValue::Bool(status.default_host_library_present),
    );
    record(members)
}

/// The JSON form of the paths of the native host.
pub fn paths_reply(status: &NativeStatus) -> (res: JsonValue)
    ensures
        res@ == paths_json(status@),
{
    let mut entries = start();
    put(&mut entries, "platform", JsonValue::text(status.platform.as_str()));
    put(&mut entries, "cef_sdk_root", JsonValue::text(status.cef_sdk_root.as_str()));
    put(&mut entries, "configure_artifact", JsonValue::text(status.configure_artifact.as_str()));
    put(&mut entries, "default_app_dir", JsonValue::text(status.default_app_dir.as_str()));
    put(
        &mut entries,
        "default_app_executable",
        JsonValue::text(status.default_app_executable.as_str()),
    );
    put(
        &mut entries,
        "default_host_library",
        JsonValue::text(status.default_host_library.as_str()),
    );
    object(entries)
}

fn tools_reply(tools: &Vec<NativeToolStatus>) -> (res: JsonOut)
    ensures
        res@ == OutView::List(tool_records(tools_view(tools@))),
{
    let mut items: Vec<JsonOut> = Vec::new();
    let mut i: usize = 0;
    while i < tools.len()
        invariant
            i <= tools@.len(),
            items@.len() == i,
            forall|j: int| 0 <= j < i ==> (#[trigger] items@[j])@ == tool_record(tools@[j]@),
        decreases tools@.len() - i,
    {
        let mut members = start_record();
        add_value(&mut members, "name", JsonValue::text(tools[i].name.as_str()));
        add_value(&mut members, "found", JsonValue::Bool(tools[i].found));
        assert(out_members_view(members@) =~= tool_record(tools@[i as int]@)->Record_0);
        items.push(record(members));
        i += 1;
    }
    assert(outs_view(items@) =~= tool_records(tools_view(tools@)));
    list(items)
}

fn texts_reply(list: &Vec<String>) -> (res: JsonValue)
    ensures
        res@ == texts_json(texts(list@)),
{
    let mut items: Vec<JsonValue> = Vec::new();
    let mut i: usize = 0;
    while i < list.len()
        invariant
            i <= list@.len(),
            items@.len() == i,
            forall|j: int| 0 <= j < i ==> (#[trigger] items@[j])@ == JsonView::Text(list@[j]@),
        decreases list@.len() - i,
    {
        items.push(JsonValue::text(list[i].as_str()));
        i += 1;
    }
    proof {
        let views = texts(list@);
        assert(values_view(items@) =~= Seq::new(views.len(), |k: int| JsonView::Text(views[k])));
    }
    array(items)
}

/// The record of what a check of the native host comes to.
pub fn doctor_reply(doctor: &NativeDoctor) -> (res: JsonOut)
    ensures
        res@ == doctor_record(doctor@),
{
    let mut members = start_record();
    add_member(&mut members, "status", status_reply(&doctor.status));
    assert(out_members_view(members@) =~= seq![("status"@, status_record(doctor@.status))]);
    add_value(
        &mut members,
        "canonical_install_dir",
        JsonValue::opt_text(&doctor.canonical_install_dir),
    );
    add_value(
        &mut members,
        "canonical_install_app_executable",
        JsonValue::opt_text(&doctor.canonical_install_app_executable),
    );
    add_value(
        &mut members,
        "canonical_install_cli",
        JsonValue::opt_text(&doctor.canonical_install_cli),
    );
    add_value(
        &mut members,
        "canonical_install_host_library",
        JsonValue::opt_text(&doctor.canonical_install_host_library),
    );
    add_value(
        &mut members,
        "workspace_app_dir",
        JsonValue::text(doctor.workspace_app_dir.as_str()),
    );
    add_value(
        &mut members,
        "workspace_app_executable",
        JsonValue::text(doctor.workspace_app_executable.as_str()),
    );
    add_value(
        &mut members,
        "workspace_app_executable_present",
        JsonValue::Bool(doctor.workspace_app_executable_present),
    );
    add_value(
        &mut members,
        "workspace_host_library",
        JsonValue::text(doctor.workspace_host_library.as_str()),
    );
    add_value(
        &mut members,
        "workspace_host_library_present",
        JsonValue::Bool(doctor.workspace_host_library_present),
    );
    add_member(&mut members, "required_tools", tools_reply(&doctor.required_tools));
    add_value(&mut members, "missing_tools", texts_reply(&doctor.missing_tools));
    add_value(&mut members, "ready_for_configure", JsonValue::Bool(doctor.ready_for_configure));
    add_value(&mut members, "ready_for_build", JsonValue::Bool(doctor.ready_for_build));
    add_value(&mut members, "ready_for_install", JsonValue::Bool(doctor.ready_for_install));
    add_value(&mut members, "notes", texts_reply(&doctor.notes));
    record(members)
}

/// What is printed after configuring.
pub fn configure_reply(artifact: &str) -> (res: JsonValue)
    ensures
        res@ == JsonView::Object(
            no_members().insert("configure_artifact"@, JsonView::Text(artifact@)),
        ),
{
    let mut entries = start();
    put(&mut entries, "configure_artifact", JsonValue::text(artifact));
    object(entries)
}

/// What is printed after a target was built.
pub fn build_reply(
    configuration: NativeConfiguration,
    target: &Option<String>,
    artifact: &str,
) -> (res: JsonValue)
    ensures
        res@ == JsonView::Object(
            no_members().insert(
                "configuration"@,
                JsonView::Text(configuration_name(configuration)),
            ).insert(
                "target"@,
                JsonView::Text(
                    match opt_text(*target) {
                        Some(t) => t,
                        None => "aegis_native"@,
                    },
                ),
            ).insert("artifact"@, JsonView::Text(artifact@)),
        ),
{
    let target = match target {
        Some(t) => t.clone(),
        None => "aegis_native".to_owned(),
    };
    let mut entries = start();
    put(&mut entries, "configuration", JsonValue::text(configuration.as_str()));
    put(&mut entries, "target", JsonValue::Text(target));
    put(&mut entries, "artifact", JsonValue::text(artifact));
    object(entries)
}

/// What is printed after the app was installed.
pub fn install_reply(app_dir: &str, status: &NativeStatus, facts: &NativeFacts) -> (res: JsonValue)
    ensures
        res@ == JsonView::Object(
            no_members().insert("installed_app_dir"@, JsonView::Text(app_dir@)).insert(
                "installed_app_executable"@,
                JsonView::Text(executable_path(*facts, app_dir@)),
            ).insert(
                "installed_host_library"@,
                JsonView::Text(status@.default_host_library),
            ),
        ),
{
    let mut entries = start();
    put(&mut entries, "installed_app_dir", JsonValue::text(app_dir));
    let executable = app_executable(app_dir, facts);
    put(&mut entries, "installed_app_executable", JsonValue::Text(executable));
    put(
        &mut entries,
        "installed_host_library",
        JsonValue::text(status.default_host_library.as_str()),
    );
    object(entries)
}

/// What is printed after the app was opened.
pub fn open_reply(app_dir: &str, platform: NativePlatform) -> (res: JsonValue)
    ensures
        res@ == JsonView::Object(
            no_members().insert(
                match platform {
                    NativePlatform::Macos => "opened_app_bundle"@,
                    NativePlatform::Linux => "opened_app_dir"@,
                },
                JsonView::Text(app_dir@),
            ),
        ),
{
    let mut entries = start();
    let name = match platform {
        NativePlatform::Macos => "opened_app_bundle",
        NativePlatform::Linux => "opened_app_dir",
    };
    put(&mut entries, name, JsonValue::text(app_dir));
    object(entries)
}

/// The status of the native host is told part by part, each under its own name.
#[verifier::spinoff_prover]
#[verifier::rlimit(50)]
pub proof fn law_native_status_is_told(s: NativeStatusView)
    ensures
        ({
            let r = status_record(s);
            &&& crate::json::found(r, "platform"@) == Some(JsonView::Text(platform_name(s.platform)))
            &&& crate::json::found(r, "cef_sdk_root"@) == Some(JsonView::Text(s.cef_sdk_root))
            &&& crate::json::found(r, "build_dir"@) == Some(JsonView::Text(s.build_dir))
            &&& crate::json::found(r, "configure_artifact"@) == Some(JsonView::Text(s.configure_artifact))
            &&& crate::json::found(r, "default_app_dir"@) == Some(JsonView::Text(s.default_app_dir))
            &&& crate::json::found(r, "default_app_executable"@) == Some(JsonView::Text(s.default_app_executable))
            &&& crate::json::found(r, "default_host_library"@) == Some(JsonView::Text(s.default_host_library))
            &&& crate::json::found(r, "cef_sdk_present"@) == Some(JsonView::Bool(s.cef_sdk_present))
            &&& crate::json::found(r, "configure_artifact_present"@) == Some(JsonView::Bool(s.configure_artifact_present))
            &&& crate::json::found(r, "default_app_dir_present"@) == Some(JsonView::Bool(s.default_app_dir_present))
            &&& crate::json::found(r, "default_app_executable_present"@) == Some(JsonView::Bool(s.default_app_executable_present))
            &&& crate::json::found(r, "default_host_library_present"@) == Some(JsonView::Bool(s.default_host_library_present))
        }),
{
    broadcast use crate::json::group_found;

    reveal_strlit("platform");
    reveal_strlit("cef_sdk_root");
    reveal_strlit("build_dir");
    reveal_strlit("configure_artifact");
    reveal_strlit("default_app_dir");
    reveal_strlit("default_app_executable");
    reveal_strlit("default_host_library");
    reveal_strlit("cef_sdk_present");
    reveal_strlit("configure_artifact_present");
    reveal_strlit("default_app_dir_present");
    reveal_strlit("default_app_executable_present");
    reveal_strlit("default_host_library_present");
    assert("platform"@.len() == 8 && "cef_sdk_root"@.len() == 12 && "build_dir"@.len() == 9 && "configure_artifact"@.len() == 18 && "default_app_dir"@.len() == 15 && "default_app_executable"@.len() == 22 && "default_host_library"@.len() == 20 && "cef_sdk_present"@.len() == 15 && "configure_artifact_present"@.len() == 26 && "default_app_dir_present"@.len() == 23 && "default_app_executable_present"@.len() == 30 && "default_host_library_present"@.len() == 28);
    assert("default_app_dir"@[0] == 'd' && "cef_sdk_present"@[0] == 'c');
}

/// The paths of the native host are told under their names.
pub proof fn law_native_paths_are_told(s: NativeStatusView)
    ensures
        ({
            let v = paths_json(s);
            &&& crate::json::member(v, "platform"@) == Some(
                JsonView::Text(platform_name(s.platform)),
            )
            &&& crate::json::member(v, "cef_sdk_root"@) == Some(JsonView::Text(s.cef_sdk_root))
            &&& crate::json::member(v, "configure_artifact"@) == Some(JsonView::Text(s.configure_artifact))
            &&& crate::json::member(v, "default_app_dir"@) == Some(JsonView::Text(s.default_app_dir))
            &&& crate::json::member(v, "default_app_executable"@) == Some(JsonView::Text(s.default_app_executable))
            &&& crate::json::member(v, "default_host_library"@) == Some(JsonView::Text(s.default_host_library))
        }),
{
    reveal_strlit("platform");
    reveal_strlit("cef_sdk_root");
    reveal_strlit("configure_artifact");
    reveal_strlit("default_app_dir");
    reveal_strlit("default_app_executable");
    reveal_strlit("default_host_library");
    assert("platform"@.len() == 8 && "cef_sdk_root"@.len() == 12 && "configure_artifact"@.len() == 18 && "default_app_dir"@.len() == 15 && "default_app_executable"@.len() == 22 && "default_host_library"@.len() == 20);
}

/// What the doctor found is told part by part, each under its own name.
#[verifier::spinoff_prover]
#[verifier::rlimit(90)]
pub proof fn law_doctor_report_is_told(d: DoctorView)
    ensures
        ({
            let r = doctor_record(d);
            &&& crate::json::found(r, "status"@) == Some(crate::json::plain(status_record(d.status)))
            &&& crate::json::found(r, "canonical_install_dir"@) == Some(match d.canonical_install_dir { Some(t) => JsonView::Text(t), None => JsonView::Null })
            &&& crate::json::found(r, "canonical_install_app_executable"@) == Some(match d.canonical_install_app_executable { Some(t) => JsonView::Text(t), None => JsonView::Null })
            &&& crate::json::found(r, "canonical_install_cli"@) == Some(match d.canonical_install_cli { Some(t) => JsonView::Text(t), None => JsonView::Null })
            &&& crate::json::found(r, "canonical_install_host_library"@) == Some(match d.canonical_install_host_library { Some(t) => JsonView::Text(t), None => JsonView::Null })
            &&& crate::json::found(r, "workspace_app_dir"@) == Some(JsonView::Text(d.workspace_app_dir))
            &&& crate::json::found(r, "workspace_app_executable"@) == Some(JsonView::Text(d.workspace_app_executable))
            &&& crate::json::found(r, "workspace_host_library"@) == Some(JsonView::Text(d.workspace_host_library))
            &&& crate::json::found(r, "workspace_app_executable_present"@) == Some(JsonView::Bool(d.workspace_app_executable_present))
            &&& crate::json::found(r, "workspace_host_library_present"@) == Some(JsonView::Bool(d.workspace_host_library_present))
            &&& crate::json::found(r, "ready_for_configure"@) == Some(JsonView::Bool(d.ready_for_configure))
            &&& crate::json::found(r, "ready_for_build"@) == Some(JsonView::Bool(d.ready_for_build))
            &&& crate::json::found(r, "ready_for_install"@) == Some(JsonView::Bool(d.ready_for_install))
            &&& crate::json::found(r, "missing_tools"@) == Some(JsonView::Array(d.missing_tools.map_values(|t: Seq<char>| JsonView::Text(t))))
            &&& crate::json::found(r, "notes"@) == Some(JsonView::Array(d.notes.map_values(|t: Seq<char>| JsonView::Text(t))))
            &&& crate::json::found(r, "required_tools"@) == Some(
                crate::json::plain(OutView::List(tool_records(d.required_tools))),
            )
        }),
{
    broadcast use crate::json::group_found;

    reveal_strlit("status");
    reveal_strlit("canonical_install_dir");
    reveal_strlit("canonical_install_app_executable");
    reveal_strlit("canonical_install_cli");
    reveal_strlit("canonical_install_host_library");
    reveal_strlit("workspace_app_dir");
    reveal_strlit("workspace_app_executable");
    reveal_strlit("workspace_host_library");
    reveal_strlit("workspace_app_executable_present");
    reveal_strlit("workspace_host_library_present");
    reveal_strlit("ready_for_configure");
    reveal_strlit("ready_for_build");
    reveal_strlit("ready_for_install");
    reveal_strlit("missing_tools");
    reveal_strlit("notes");
    reveal_strlit("required_tools");
    assert("status"@.len() == 6 && "canonical_install_dir"@.len() == 21 && "canonical_install_app_executable"@.len() == 32 && "canonical_install_cli"@.len() == 21 && "canonical_install_host_library"@.len() == 30 && "workspace_app_dir"@.len() == 17 && "workspace_app_executable"@.len() == 24 && "workspace_host_library"@.len() == 22 && "workspace_app_executable_present"@.len() == 32 && "workspace_host_library_present"@.len() == 30 && "ready_for_configure"@.len() == 19 && "ready_for_build"@.len() == 15 && "ready_for_install"@.len() == 17 && "missing_tools"@.len() == 13 && "notes"@.len() == 5 && "required_tools"@.len() == 14);
    assert("canonical_install_dir"@[18] == 'd' && "canonical_install_app_executable"@[0] == 'c' && "canonical_install_cli"@[18] == 'c' && "canonical_install_host_library"@[0] == 'c' && "workspace_app_dir"@[0] == 'w' && "workspace_app_executable_present"@[0] == 'w' && "workspace_host_library_present"@[0] == 'w' && "ready_for_install"@[0] == 'r');
    assert(d.missing_tools.map_values(|t: Seq<char>| JsonView::Text(t)) =~= texts_json(
        d.missing_tools,
    )->Array_0);
    assert(d.notes.map_values(|t: Seq<char>| JsonView::Text(t)) =~= texts_json(d.notes)->Array_0);
}

/// A tool is told by its name and whether it was found.
pub proof fn law_tools_are_told(t: ToolView)
    ensures
        crate::json::found(tool_record(t), "name"@) == Some(JsonView::Text(t.name)),
        crate::json::found(tool_record(t), "found"@) == Some(JsonView::Bool(t.found)),
{
    broadcast use crate::json::group_found;

    reveal_strlit("name");
    reveal_strlit("found");
    assert("name"@.len() == 4 && "found"@.len() == 5);
}

} // verus!
