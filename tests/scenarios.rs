use cling::command::{CommandTree, ConfigError, Field, Node, Policy, Variant};
use cling::dispatch::Cling;
use cling::effects::{Effect, SetState};
use cling::error::CliError;
use cling::handler::HandlerRef;
use cling::record::Recorder;
use cling::tag::TypeTag;
use cling::walk::Handlers;

#[derive(Debug, Clone, PartialEq)]
enum Val {
    App,
    Common { verbose: u8 },
    AddArgs { num1: i64, num2: i64 },
    SubArgs { num1: i64, num2: i64 },
    Add,
    Subtract,
    Session { user: String },
    Flag(bool),
}

fn tag(name: &str) -> TypeTag {
    TypeTag::named(name)
}

fn handler(name: &str, params: Vec<TypeTag>) -> HandlerRef {
    HandlerRef { name: name.to_string(), params }
}

fn registry() -> Vec<String> {
    vec!["calc::Common".to_string(), "calc::AddArgs".to_string(), "calc::SubArgs".to_string()]
}

fn root(root_handler: Option<HandlerRef>, selected: usize) -> Vec<Node<Val>> {
    vec![
        Node::Composite {
            name: "App".to_string(),
            tag: tag("calc::App"),
            value: Val::App,
            handler: root_handler,
            fields: vec![
                Field::Value {
                    name: "common".to_string(),
                    tag: tag("calc::Common"),
                    policy: Policy::Auto,
                    value: Val::Common { verbose: 1 },
                },
                Field::SubNode { name: "cmd".to_string() },
            ],
        },
        Node::Choice {
            name: "Commands".to_string(),
            handler: None,
            variants: vec![
                Variant { name: "Add".to_string(), handler: None, wraps_node: true },
                Variant { name: "Subtract".to_string(), handler: None, wraps_node: true },
                Variant {
                    name: "Version".to_string(),
                    handler: Some(handler("print_version", vec![])),
                    wraps_node: false,
                },
            ],
            selected,
        },
    ]
}

fn add_node() -> Node<Val> {
    Node::Composite {
        name: "Add".to_string(),
        tag: tag("calc::Add"),
        value: Val::Add,
        handler: Some(handler("run_add", vec![tag("calc::Common"), tag("calc::AddArgs")])),
        fields: vec![Field::Value {
            name: "args".to_string(),
            tag: tag("calc::AddArgs"),
            policy: Policy::Auto,
            value: Val::AddArgs { num1: 2, num2: 3 },
        }],
    }
}

fn subtract_node() -> Node<Val> {
    Node::Composite {
        name: "Subtract".to_string(),
        tag: tag("calc::Subtract"),
        value: Val::Subtract,
        handler: Some(handler("run_subtract", vec![tag("calc::SubArgs")])),
        fields: vec![Field::Value {
            name: "dry_run".to_string(),
            tag: tag("bool"),
            policy: Policy::Auto,
            value: Val::Flag(false),
        }],
    }
}

struct Calc {
    output: Vec<String>,
    calls: Vec<String>,
}

impl Calc {
    fn new() -> Calc {
        Calc { output: Vec::new(), calls: Vec::new() }
    }
}

impl Handlers<Val> for Calc {
    fn call(&mut self, handler: &HandlerRef, args: Vec<&Val>) -> Result<Effect<Val>, CliError> {
        self.calls.push(handler.name.clone());
        match handler.name.as_str() {
            "init" => {
                assert_eq!(&Val::Common { verbose: 1 }, args[0]);
                Ok(Effect::NoEffect)
            }
            "run_add" => match (args[0], args[1]) {
                (Val::Common { .. }, Val::AddArgs { num1, num2 }) => {
                    self.output.push(format!("{} + {} = {}", num1, num2, num1 + num2));
                    Ok(Effect::NoEffect)
                }
                _ => Err(CliError::Failed),
            },
            "run_subtract" => match args[0] {
                Val::SubArgs { num1, num2 } => {
                    self.output.push(format!("{} - {} = {}", num1, num2, num1 - num2));
                    Ok(Effect::NoEffect)
                }
                _ => Err(CliError::Failed),
            },
            "login" => Ok(Effect::SetState(SetState {
                state: tag("calc::Session"),
                value: Val::Session { user: "42".to_string() },
            })),
            "whoami" => match args[0] {
                Val::Session { user } => {
                    self.output.push(format!("user {}", user));
                    Ok(Effect::NoEffect)
                }
                _ => Err(CliError::Failed),
            },
            "print_version" => {
                self.output.push("1.0".to_string());
                Ok(Effect::NoEffect)
            }
            "refuse" => Err(CliError::FailedWithMessageAndCode("refused".to_string(), 7)),
            _ => Err(CliError::Failed),
        }
    }
}

fn tree(nodes: Vec<Node<Val>>) -> CommandTree<Val> {
    CommandTree { collect: registry(), nodes }
}

#[test]
fn scenario_add_runs_with_collected_context() {
    let init = handler("init", vec![tag("calc::Common")]);
    let mut nodes = root(Some(init), 0);
    nodes.push(add_node());
    let ready = Cling::new(tree(nodes)).ok().unwrap();
    let mut calc = Recorder::new(Calc::new());
    let finished = ready.run(&mut calc);
    assert!(finished.is_success());
    assert_eq!(0, finished.exit_code());
    assert_eq!(vec!["init".to_string(), "run_add".to_string()], calc.handlers().calls);
    assert_eq!(vec!["2 + 3 = 5".to_string()], calc.handlers().output);
    assert_eq!(
        vec!["calc::AddArgs".to_string(), "calc::Common".to_string()],
        finished.collected_parameters().collected_types()
    );
    assert!(finished.collected_parameters().warnings().is_empty());
}

fn reasons() -> &'static str {
    "   - The type did not opt in to collection\n   - The field is not collected explicitly\n   - The type is not present in any field or command leading to this command in the command hierarchy\n   - The type is declared as Option<T> or Vec<T> and the handler asks for T, or the other way round\n\n"
}

#[test]
fn scenario_subtract_misses_sub_args() {
    let mut nodes = root(None, 1);
    nodes.push(subtract_node());
    let ready = Cling::new(tree(nodes)).ok().unwrap();
    let mut calc = Recorder::new(Calc::new());
    let finished = ready.run(&mut calc);
    assert!(finished.is_failure());
    assert_eq!(1, finished.exit_code());
    assert!(calc.handlers().calls.is_empty());
    let expected = format!(
        "In `run_subtract`: Type `calc::SubArgs` was not collected from input arguments. Possible reasons:\n{}   Those are the types that have been collected: [\n    \"calc::Common\",\n]\n",
        reasons()
    );
    match finished.result() {
        Err(CliError::InvalidHandler(msg)) => {
            assert_eq!(expected, msg);
            assert!(!msg.contains("\"calc::SubArgs\""));
        }
        _ => panic!("expected an extraction error"),
    }
}

#[test]
fn missing_parameter_on_an_empty_bag_lists_nothing() {
    let nodes = vec![Node::Composite {
        name: "App".to_string(),
        tag: tag("calc::App"),
        value: Val::App,
        handler: Some(handler("whoami", vec![tag("calc::Session")])),
        fields: vec![],
    }];
    let finished = Cling::new(tree(nodes)).ok().unwrap().run(&mut Recorder::new(Calc::new()));
    let expected = format!(
        "In `whoami`: Type `calc::Session` was not collected from input arguments. Possible reasons:\n{}   Those are the types that have been collected: []\n",
        reasons()
    );
    match finished.result() {
        Err(CliError::InvalidHandler(msg)) => assert_eq!(expected, msg),
        _ => panic!("expected an extraction error"),
    }
}

#[test]
fn scenario_state_reaches_descendants() {
    let login = handler("login", vec![]);
    let mut nodes = root(Some(login), 0);
    nodes.push(Node::Composite {
        name: "Add".to_string(),
        tag: tag("calc::Add"),
        value: Val::Add,
        handler: Some(handler("whoami", vec![tag("calc::Session")])),
        fields: vec![],
    });
    let finished = Cling::new(tree(nodes)).ok().unwrap().run(&mut Recorder::new(Calc::new()));
    assert!(finished.is_success());
    assert_eq!(
        Some(&Val::Session { user: "42".to_string() }),
        finished.collected_parameters().get(&tag("calc::Session"))
    );
    let mut calc = Recorder::new(Calc::new());
    let login = handler("login", vec![]);
    let mut nodes = root(Some(login), 0);
    nodes.push(Node::Composite {
        name: "Add".to_string(),
        tag: tag("calc::Add"),
        value: Val::Add,
        handler: Some(handler("whoami", vec![tag("calc::Session")])),
        fields: vec![],
    });
    Cling::new(tree(nodes)).ok().unwrap().run(&mut calc);
    assert_eq!(vec!["user 42".to_string()], calc.handlers().output);
}

#[test]
fn scenario_state_never_reaches_ancestors() {
    let whoami = handler("whoami", vec![tag("calc::Session")]);
    let mut nodes = root(Some(whoami), 0);
    nodes.push(Node::Composite {
        name: "Add".to_string(),
        tag: tag("calc::Add"),
        value: Val::Add,
        handler: Some(handler("login", vec![])),
        fields: vec![],
    });
    let mut calc = Recorder::new(Calc::new());
    let finished = Cling::new(tree(nodes)).ok().unwrap().run(&mut calc);
    assert!(calc.handlers().calls.is_empty());
    match finished.result() {
        Err(CliError::InvalidHandler(msg)) => {
            assert!(msg.starts_with("In `whoami`: Type `calc::Session` was not collected"))
        }
        _ => panic!("expected an extraction error"),
    }
}

#[test]
fn unit_variant_runs_its_handler() {
    let nodes = root(None, 2);
    let mut calc = Recorder::new(Calc::new());
    let finished = Cling::new(tree(nodes)).ok().unwrap().run(&mut calc);
    assert!(finished.is_success());
    assert_eq!(vec!["1.0".to_string()], calc.handlers().output);
}

#[test]
fn handler_error_stops_the_walk() {
    let mut nodes = root(Some(handler("refuse", vec![])), 0);
    nodes.push(add_node());
    let mut calc = Recorder::new(Calc::new());
    let finished = Cling::new(tree(nodes)).ok().unwrap().run(&mut calc);
    assert_eq!(vec!["refuse".to_string()], calc.handlers().calls);
    assert!(calc.handlers().output.is_empty());
    assert_eq!(7, finished.exit_code());
    assert_eq!(vec!["calc::Common".to_string()], finished.collected_parameters().collected_types());
}

#[test]
fn run_with_state_seeds_the_bag_without_warning() {
    let mut nodes = root(Some(handler("login", vec![])), 0);
    nodes.push(Node::Composite {
        name: "Add".to_string(),
        tag: tag("calc::Add"),
        value: Val::Add,
        handler: Some(handler("whoami", vec![tag("calc::Session")])),
        fields: vec![],
    });
    let mut calc = Recorder::new(Calc::new());
    let seed = SetState { state: tag("calc::Session"), value: Val::Session { user: "7".to_string() } };
    let finished = Cling::new(tree(nodes)).ok().unwrap().run_with_state(seed, &mut calc);
    assert!(finished.is_success());
    assert_eq!(vec!["user 42".to_string()], calc.handlers().output);
    assert!(finished.collected_parameters().warnings().is_empty());
}

#[test]
fn fields_of_the_same_type_warn() {
    let mut nodes = root(None, 0);
    nodes.push(Node::Composite {
        name: "Add".to_string(),
        tag: tag("calc::Add"),
        value: Val::Add,
        handler: Some(handler("print_version", vec![])),
        fields: vec![Field::Value {
            name: "common".to_string(),
            tag: tag("calc::Common"),
            policy: Policy::Auto,
            value: Val::Common { verbose: 2 },
        }],
    });
    let finished = Cling::new(tree(nodes)).ok().unwrap().run(&mut Recorder::new(Calc::new()));
    let bag = finished.collected_parameters();
    let warned: Vec<String> = bag.warnings().iter().map(|t| t.name()).collect();
    assert_eq!(vec!["calc::Common".to_string()], warned);
    assert_eq!(Some(&Val::Common { verbose: 2 }), bag.get(&tag("calc::Common")));
}

#[test]
fn policies_decide_what_is_collected() {
    let nodes = vec![Node::Composite {
        name: "App".to_string(),
        tag: tag("calc::Common"),
        value: Val::App,
        handler: Some(handler("print_version", vec![])),
        fields: vec![
            Field::Value {
                name: "explicit".to_string(),
                tag: tag("bool"),
                policy: Policy::Explicit,
                value: Val::Flag(true),
            },
            Field::Value {
                name: "skipped".to_string(),
                tag: tag("calc::AddArgs"),
                policy: Policy::Skip,
                value: Val::AddArgs { num1: 1, num2: 1 },
            },
            Field::Value {
                name: "optional".to_string(),
                tag: tag("calc::SubArgs").optional(),
                policy: Policy::Auto,
                value: Val::SubArgs { num1: 5, num2: 1 },
            },
            Field::Value {
                name: "plain".to_string(),
                tag: tag("u8"),
                policy: Policy::Auto,
                value: Val::Flag(false),
            },
        ],
    }];
    let finished = Cling::new(tree(nodes)).ok().unwrap().run(&mut Recorder::new(Calc::new()));
    let bag = finished.collected_parameters();
    assert_eq!(
        vec![
            "Collected<bool>".to_string(),
            "Option<calc::SubArgs>".to_string(),
            "calc::Common".to_string()
        ],
        bag.collected_types()
    );
    assert_eq!(None, bag.get(&tag("calc::SubArgs")));
    assert_eq!(Some(&Val::App), bag.get(&tag("calc::Common")));
}

#[test]
fn optional_parameter_needs_the_optional_type() {
    let nodes = vec![Node::Composite {
        name: "App".to_string(),
        tag: tag("calc::App"),
        value: Val::App,
        handler: Some(handler("run_subtract", vec![tag("calc::SubArgs").optional()])),
        fields: vec![Field::Value {
            name: "args".to_string(),
            tag: tag("calc::SubArgs"),
            policy: Policy::Auto,
            value: Val::SubArgs { num1: 5, num2: 1 },
        }],
    }];
    let finished = Cling::new(tree(nodes)).ok().unwrap().run(&mut Recorder::new(Calc::new()));
    match finished.result() {
        Err(CliError::InvalidHandler(msg)) => {
            assert!(msg.starts_with("In `run_subtract`: Type `Option<calc::SubArgs>`"))
        }
        _ => panic!("expected an extraction error"),
    }
}

fn config_error(nodes: Vec<Node<Val>>) -> ConfigError {
    match Cling::new(tree(nodes)) {
        Err(e) => e,
        Ok(_) => panic!("expected a configuration error"),
    }
}

#[test]
fn composite_without_handler_or_sub_node_is_refused() {
    let nodes = vec![Node::Composite {
        name: "App".to_string(),
        tag: tag("calc::App"),
        value: Val::App,
        handler: None,
        fields: vec![],
    }];
    assert_eq!(ConfigError::NoHandlerOrSubNode { node: 0 }, config_error(nodes));
}

#[test]
fn structural_mistakes_are_found_before_running() {
    assert_eq!(ConfigError::Empty, config_error(vec![]));

    let mut nodes = root(None, 0);
    if let Node::Composite { fields, .. } = &mut nodes[0] {
        fields.push(Field::SubNode { name: "other".to_string() });
    }
    nodes.push(add_node());
    assert_eq!(ConfigError::DuplicateSubNode { node: 0 }, config_error(nodes));

    let mut nodes = root(None, 0);
    if let Node::Choice { handler: h, .. } = &mut nodes[1] {
        *h = Some(handler("init", vec![]));
    }
    nodes.push(add_node());
    assert_eq!(ConfigError::ChoiceWithHandler { node: 1 }, config_error(nodes));

    let mut nodes = root(None, 0);
    if let Node::Choice { variants, .. } = &mut nodes[1] {
        variants[2].handler = None;
    }
    nodes.push(add_node());
    assert_eq!(ConfigError::UnitVariantWithoutHandler { node: 1, variant: 2 }, config_error(nodes));

    let mut nodes = root(None, 0);
    if let Node::Choice { variants, .. } = &mut nodes[1] {
        variants[1].handler = Some(handler("init", vec![]));
    }
    nodes.push(add_node());
    assert_eq!(ConfigError::WrapperVariantWithHandler { node: 1, variant: 1 }, config_error(nodes));

    let mut nodes = root(None, 5);
    nodes.push(add_node());
    assert_eq!(ConfigError::SelectionOutOfRange { node: 1 }, config_error(nodes));

    assert_eq!(ConfigError::MissingSubNode { node: 1 }, config_error(root(None, 0)));

    let mut nodes = root(None, 2);
    nodes.push(add_node());
    assert_eq!(ConfigError::UnexpectedSubNode { node: 1 }, config_error(nodes));

    assert_eq!(
        "a command must have a handler or a sub-command field",
        ConfigError::NoHandlerOrSubNode { node: 0 }.description()
    );
}

#[test]
fn exit_codes_follow_the_error_kind() {
    assert_eq!(1, CliError::Failed.exit_code());
    assert_eq!(1, CliError::FailedWithMessage("x".to_string()).exit_code());
    assert_eq!(3, CliError::FailedWithMessageAndCode("x".to_string(), 3).exit_code());
    assert_eq!(2, CliError::ClapError { code: 2, message: "usage".to_string() }.exit_code());
    assert_eq!(255, CliError::ClapError { code: 300, message: "x".to_string() }.exit_code());
    assert_eq!(255, CliError::ClapError { code: -1, message: "x".to_string() }.exit_code());
    assert_eq!(1, CliError::InputString.exit_code());
    assert_eq!(1, CliError::Other(anyhow::Error::msg("boom")).exit_code());
    assert_eq!(9, CliError::OtherWithCode(anyhow::Error::msg("boom"), 9).exit_code());
    assert_eq!(1, CliError::InvalidHandler("x".to_string()).exit_code());
    assert_eq!(1, CliError::InvalidCommand(ConfigError::Empty).exit_code());
}

#[test]
fn errors_report_heading_and_body() {
    let (h, b) = CliError::Failed.report();
    assert_eq!(("Aborted!", ""), (h.as_str(), b.as_str()));
    let (h, b) = CliError::FailedWithMessage("bad".to_string()).report();
    assert_eq!(("", "bad"), (h.as_str(), b.as_str()));
    let (h, b) = CliError::Other(anyhow::Error::msg("boom")).report();
    assert_eq!(("Error: ", "boom"), (h.as_str(), b.as_str()));
    let (h, b) = CliError::InputString.report();
    assert_eq!("", h);
    assert_eq!("Input string cannot be parsed as UNIX shell command", b);
    let (h, b) = CliError::InvalidHandler("msg".to_string()).report();
    assert_eq!("\n\n** Cling Handler Design Error **\n\n", h);
    assert_eq!("msg", b);
    let (h, b) = CliError::InvalidCommand(ConfigError::Empty).report();
    assert_eq!("\n\n** Cling Command Design Error **\n\n", h);
    assert_eq!("the command tree has no node", b);
    let e: CliError = anyhow::Error::msg("wrapped").into();
    assert!(matches!(e, CliError::Other(_)));
}

#[test]
fn finished_constructors() {
    let ok: Cling<Val, cling::dispatch::Finished> = Cling::success();
    assert!(ok.is_success());
    assert_eq!(0, ok.exit_code());
    assert!(ok.collected_parameters().is_empty());
    let mut failed: Cling<Val, cling::dispatch::Finished> =
        Cling::failed(CliError::FailedWithMessageAndCode("no".to_string(), 4));
    assert!(failed.is_failure());
    assert_eq!(4, failed.exit_code());
    failed.collected_arguments_mut().insert(tag("calc::Common"), Val::Common { verbose: 0 }, false);
    assert!(!failed.collected_parameters().is_empty());
    assert!(failed.result_ref().is_err());
}

#[test]
fn command_lines_split_like_a_shell() {
    let words = cling::input::split_command_line("calc", "add --num1 2 'x y'").unwrap();
    assert_eq!(
        vec!["calc".to_string(), "add".to_string(), "--num1".to_string(), "2".to_string(), "x y".to_string()],
        words
    );
    assert!(matches!(
        cling::input::split_command_line("calc", "add 'unterminated"),
        Err(CliError::InputString)
    ));
    assert!(matches!(cling::input::words_or_error(None), Err(CliError::InputString)));
    assert_eq!(
        vec!["a".to_string()],
        cling::input::words_or_error(Some(vec!["a".to_string()])).unwrap()
    );
}

#[test]
fn error_messages() {
    assert_eq!("Failed!", CliError::Failed.message());
    assert_eq!("Failed: bad", CliError::FailedWithMessage("bad".to_string()).message());
    assert_eq!("Error: bad", CliError::FailedWithMessageAndCode("bad".to_string(), 2).message());
    assert_eq!("Error: boom", CliError::Other(anyhow::Error::msg("boom")).message());
    assert_eq!("Error: boom", CliError::OtherWithCode(anyhow::Error::msg("boom"), 3).message());
    assert_eq!(
        "\n\n** Cling Handler Design Error **\n\nmsg",
        CliError::InvalidHandler("msg".to_string()).message()
    );
    assert_eq!("usage", CliError::ClapError { code: 2, message: "usage".to_string() }.message());
}

#[test]
fn run_tree_checks_before_running() {
    let nodes = vec![Node::Composite {
        name: "App".to_string(),
        tag: tag("calc::App"),
        value: Val::App,
        handler: None,
        fields: vec![],
    }];
    let mut calc = Recorder::new(Calc::new());
    let finished = Cling::run_tree(tree(nodes), &mut calc);
    assert!(calc.handlers().calls.is_empty());
    assert_eq!(1, finished.exit_code());
    assert!(matches!(
        finished.result(),
        Err(CliError::InvalidCommand(ConfigError::NoHandlerOrSubNode { node: 0 }))
    ));

    let mut nodes = root(Some(handler("init", vec![tag("calc::Common")])), 0);
    nodes.push(add_node());
    let finished = Cling::run_tree(tree(nodes), &mut calc);
    assert!(finished.is_success());
    assert_eq!(vec!["2 + 3 = 5".to_string()], calc.handlers().output);
}

#[test]
fn handler_sees_only_its_path() {
    let mut nodes = root(Some(handler("init", vec![tag("calc::Common"), tag("calc::AddArgs")])), 0);
    nodes.push(add_node());
    let mut calc = Recorder::new(Calc::new());
    let finished = Cling::new(tree(nodes)).ok().unwrap().run(&mut calc);
    assert!(calc.handlers().calls.is_empty());
    let expected = format!(
        "In `init`: Type `calc::AddArgs` was not collected from input arguments. Possible reasons:\n{}   Those are the types that have been collected: [\n    \"calc::Common\",\n]\n",
        reasons()
    );
    match finished.result() {
        Err(CliError::InvalidHandler(msg)) => assert_eq!(expected, msg),
        _ => panic!("expected an extraction error"),
    }
}
