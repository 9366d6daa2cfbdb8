use simplydmx::api_utilities::rpc::{rpc_module_text, ServiceArgument, ServiceDescription, TypeDecl};

fn arg(id: &str, ts: &str) -> ServiceArgument {
    ServiceArgument { id: id.into(), val_type: format!("export type FunctionArgument = {};", ts) }
}

fn service(plugin: &str, id: &str, args: Vec<ServiceArgument>, returns: Option<ServiceArgument>) -> ServiceDescription {
    ServiceDescription {
        plugin_id: plugin.into(),
        id: id.into(),
        description: format!("Does {}", id),
        arguments: args,
        returns,
    }
}

#[test]
fn rpc_module_is_sorted_and_grouped() {
    let types = vec![
        TypeDecl { name: "Uuid".into(), decl: "export type Uuid = string;".into(), docs: Some("/** An id */".into()) },
        TypeDecl { name: "FxHashMap".into(), decl: "export type FxHashMap = Record;".into(), docs: None },
    ];
    let services = vec![
        service("patcher", "delete_fixture", vec![arg("id", "Uuid")], Some(arg("ok", "boolean"))),
        service("mixer", "set_opacity", vec![arg("layer", "Uuid"), arg("opacity", "number")], None),
        service("mixer", "enter_blind_mode", vec![], None),
    ];
    let expected = [
        "import { callService } from \"./agnostic_abstractions\";\n\n\n",
        "/** This type is currently undocumented. I will be working to resolve this for all types in the near future. */\n",
        "export type FxHashMap = Record;\n\n",
        "/** An id */\nexport type Uuid = string;",
        "\n\n",
        "\nexport const mixer = {\n",
        "\t/** Does enter_blind_mode */\n\tenter_blind_mode(): Promise<void> { return callService(\"mixer\", \"enter_blind_mode\", []) },\n",
        "\t/** Does set_opacity */\n\tset_opacity(layer: Uuid, opacity: number): Promise<void> { return callService(\"mixer\", \"set_opacity\", [layer, opacity]) },\n",
        "};\n",
        "\nexport const patcher = {\n",
        "\t/** Does delete_fixture */\n\tdelete_fixture(id: Uuid): Promise<boolean> { return callService(\"patcher\", \"delete_fixture\", [id]) },\n",
        "};\n",
        "\n",
    ]
    .concat();
    assert_eq!(rpc_module_text(&types, &services), expected);
}

#[test]
fn empty_rpc_module() {
    assert_eq!(
        rpc_module_text(&vec![], &vec![]),
        "import { callService } from \"./agnostic_abstractions\";\n\n\n\n\n\n"
    );
}

#[test]
fn rpc_module_ignores_registration_order() {
    let types = || {
        vec![
            TypeDecl { name: "B".into(), decl: "export type B = number;".into(), docs: None },
            TypeDecl { name: "A".into(), decl: "export type A = string;".into(), docs: Some("/** A */".into()) },
        ]
    };
    let services = || {
        vec![
            service("p2", "x", vec![], None),
            service("p1", "z", vec![arg("v", "number")], None),
            service("p1", "y", vec![], Some(arg("r", "string"))),
        ]
    };
    let mut t2 = types();
    t2.reverse();
    let mut s2 = services();
    s2.rotate_left(1);
    assert_eq!(rpc_module_text(&types(), &services()), rpc_module_text(&t2, &s2));
}
