use proc_macro2::{Ident, Span, TokenStream};
use zephyrus::attribute::Shape;
use zephyrus::details::{
    field_of, list_item_from, meta_value_from, CommandDetails, DetailsError, Field, ListItem,
    MetaItem, MetaValue, Rejection,
};

fn details_attributes(source: &str) -> Vec<syn::Attribute> {
    let function: syn::ItemFn = syn::parse_str(&format!("{source} fn command() {{}}")).unwrap();
    function.attrs
}

fn details_parse(source: &str) -> Result<CommandDetails, Vec<Rejection>> {
    let mut attributes = details_attributes(source);
    let result = CommandDetails::parse(&mut attributes);
    assert!(attributes.is_empty());
    result
}

fn details_at(attribute: usize, error: DetailsError) -> Rejection {
    Rejection { attribute: Some(attribute), error }
}

fn details_missing() -> Rejection {
    Rejection { attribute: None, error: DetailsError::MissingField(Field::Description) }
}

fn details_rendered(source: &str) -> String {
    source.parse::<TokenStream>().unwrap().to_string()
}

fn details_written(details: &CommandDetails) -> String {
    let mut stream = TokenStream::new();
    details.to_tokens(&mut stream);
    stream.to_string()
}

fn details_path(source: &str) -> syn::Path {
    syn::parse_str(source).unwrap()
}

fn details_ident(name: &str) -> Ident {
    Ident::new(name, Span::call_site())
}

fn details_item(name: &str, value: MetaValue) -> MetaItem {
    MetaItem { name: Some(name.to_string()), value }
}

fn details_text(text: &str) -> MetaValue {
    MetaValue::NameValue { text: Some(text.to_string()), flag: None, paths: None }
}

fn details_plain() -> CommandDetails {
    CommandDetails {
        description: "Says hello".to_string(),
        required_permissions: None,
        checks: Vec::new(),
        error_handler: None,
        nsfw: false,
        only_guilds: false,
    }
}

#[test]
fn parse_reads_every_attribute() {
    let details = details_parse(
        "#[description = \"Bans a member\"] \
         #[required_permissions(BAN_MEMBERS, KICK_MEMBERS)] \
         #[checks(is_admin, guards::is_sober)] \
         #[error_handler(handle_error)] \
         #[nsfw] \
         #[only_guilds = true]",
    );
    assert_eq!(
        details,
        Ok(CommandDetails {
            description: "Bans a member".to_string(),
            required_permissions: Some(vec![
                details_ident("BAN_MEMBERS"),
                details_ident("KICK_MEMBERS")
            ]),
            checks: vec![details_path("is_admin"), details_path("guards::is_sober")],
            error_handler: Some(details_path("handle_error")),
            nsfw: true,
            only_guilds: true,
        })
    );
}

#[test]
fn parse_fills_in_defaults() {
    assert_eq!(details_parse("#[description(\"Says hello\")]"), Ok(details_plain()));
    let details = details_parse("#[description = \"x\"] #[nsfw = false] #[only_guilds]");
    let details = details.ok().unwrap();
    assert!(!details.nsfw);
    assert!(details.only_guilds);
    let details = details_parse("#[description = \"x\"] #[nsfw = \"true\"]").ok().unwrap();
    assert!(details.nsfw);
}

#[test]
fn checks_are_given_as_a_list_or_as_a_string() {
    let expected = vec![details_path("is_admin"), details_path("guards::is_sober")];
    let listed = details_parse("#[description = \"x\"] #[checks(is_admin, guards::is_sober)]");
    assert_eq!(listed.ok().unwrap().checks, expected);
    let quoted = details_parse("#[description = \"x\"] #[checks = \"is_admin, guards::is_sober\"]");
    assert_eq!(quoted.ok().unwrap().checks, expected);
    let single = details_parse("#[description = \"x\"] #[checks = \"is_admin\"]");
    assert_eq!(single.ok().unwrap().checks, vec![details_path("is_admin")]);
    let none = details_parse("#[description = \"x\"] #[checks = \"\"]");
    assert_eq!(none.ok().unwrap().checks, Vec::new());
    let empty = details_parse("#[description = \"x\"] #[checks()]");
    assert_eq!(empty.ok().unwrap().checks, Vec::new());
    assert_eq!(
        details_parse("#[description = \"x\"] #[checks = \"a b\"]"),
        Err(vec![details_at(1, DetailsError::UnexpectedFormat(Field::Checks))])
    );
    assert_eq!(
        details_parse("#[description = \"x\"] #[checks = 3]"),
        Err(vec![details_at(1, DetailsError::UnexpectedFormat(Field::Checks))])
    );
    assert_eq!(
        details_parse("#[description = \"x\"] #[checks(\"is_admin\")]"),
        Err(vec![details_at(1, DetailsError::UnexpectedFormat(Field::Checks))])
    );
}

#[test]
fn paths_and_names_are_kept_as_written() {
    let details = details_parse(
        "#[description = \"x\"] #[checks(::guards::is_sober, größe, r#fn)] \
         #[required_permissions(r#type, Größe)] #[error_handler(::oops)]",
    )
    .ok()
    .unwrap();
    assert_eq!(
        details.checks,
        vec![details_path("::guards::is_sober"), details_path("größe"), details_path("r#fn")]
    );
    assert_eq!(
        details_written(&details),
        details_rendered(
            ".description(\"x\")\
             .required_permissions(zephyrus::twilight_exports::Permissions::r#type \
                | zephyrus::twilight_exports::Permissions::Größe)\
             .checks(vec![::guards::is_sober(), größe(), r#fn()])\
             .error_handler(::oops())\
             .nsfw(false).only_guilds(false)"
        )
    );
    // The path is written token for token as it was read; only the spacing
    // that the printer puts between `::` and `<` is left aside.
    let quoted = details_parse("#[description = \"x\"] #[checks = \"make::<u8>, ::b\"]");
    let written: String =
        details_written(&quoted.ok().unwrap()).split_whitespace().collect();
    assert_eq!(
        written,
        ".description(\"x\").checks(vec![make::<u8>(),::b()]).nsfw(false).only_guilds(false)"
    );
}

#[test]
fn parse_reports_every_rejected_attribute() {
    let missing = vec![details_missing()];
    assert_eq!(details_parse(""), Err(missing.clone()));
    assert_eq!(details_parse("#[nsfw]"), Err(missing));
    assert_eq!(
        details_parse("#[description = \"x\"] #[colour = \"red\"] #[nsfw] #[nsfw]"),
        Err(vec![
            details_at(1, DetailsError::UnknownField("colour".to_string())),
            details_at(3, DetailsError::DuplicateField(Field::Nsfw))
        ])
    );
    assert_eq!(
        details_parse("#[nsfw(yes)] #[checks(3)] #[nsfw] #[zephyrus::description = \"x\"]"),
        Err(vec![
            details_at(0, DetailsError::UnexpectedFormat(Field::Nsfw)),
            details_at(1, DetailsError::UnexpectedFormat(Field::Checks)),
            details_at(2, DetailsError::DuplicateField(Field::Nsfw)),
            details_at(3, DetailsError::UnknownField("zephyrus::description".to_string())),
            details_missing(),
        ])
    );
    assert_eq!(
        details_parse("#[description = 3]"),
        Err(vec![details_at(0, DetailsError::UnexpectedFormat(Field::Description))])
    );
    assert_eq!(
        details_parse("#[description(\"a\", \"b\")] #[description = \"c\"]"),
        Err(vec![
            details_at(0, DetailsError::UnexpectedFormat(Field::Description)),
            details_at(1, DetailsError::DuplicateField(Field::Description))
        ])
    );
    assert_eq!(
        details_parse("#[description = \"x\"] #[required_permissions(a::B)]"),
        Err(vec![details_at(1, DetailsError::UnexpectedFormat(Field::RequiredPermissions))])
    );
    assert_eq!(
        details_parse("#[description = \"x\"] #[required_permissions = \"A\"]"),
        Err(vec![details_at(1, DetailsError::UnexpectedFormat(Field::RequiredPermissions))])
    );
    assert_eq!(
        details_parse("#[description = \"x\"] #[error_handler(a, b)]"),
        Err(vec![details_at(1, DetailsError::UnexpectedFormat(Field::ErrorHandler))])
    );
    assert_eq!(
        details_parse("#[description = \"x\"] #[only_guilds = 3]"),
        Err(vec![details_at(1, DetailsError::UnexpectedFormat(Field::OnlyGuilds))])
    );
}

#[test]
fn from_items_reads_plain_values() {
    let items = vec![
        details_item(
            "checks",
            MetaValue::List(vec![
                ListItem::Path(details_path("a")),
                ListItem::Path(details_path("b::c")),
            ]),
        ),
        details_item("description", MetaValue::List(vec![ListItem::Text("Hi".to_string())])),
        details_item(
            "nsfw",
            MetaValue::NameValue { text: Some("true".to_string()), flag: Some(true), paths: None },
        ),
    ];
    assert_eq!(
        CommandDetails::from_items(&items),
        Ok(CommandDetails {
            description: "Hi".to_string(),
            required_permissions: None,
            checks: vec![details_path("a"), details_path("b::c")],
            error_handler: None,
            nsfw: true,
            only_guilds: false,
        })
    );
    let with_string = vec![
        details_item("description", details_text("Hi")),
        details_item(
            "checks",
            MetaValue::NameValue { text: None, flag: None, paths: Some(vec![details_path("a")]) },
        ),
    ];
    assert_eq!(
        CommandDetails::from_items(&with_string).ok().unwrap().checks,
        vec![details_path("a")]
    );
    let unnamed = vec![MetaItem { name: None, value: MetaValue::Other }];
    assert_eq!(
        CommandDetails::from_items(&unnamed),
        Err(vec![details_at(0, DetailsError::Unnamed), details_missing()])
    );
    let other = vec![
        details_item("description", details_text("Hi")),
        details_item("required_permissions", MetaValue::List(vec![ListItem::Other])),
        details_item("error_handler", MetaValue::List(Vec::new())),
    ];
    assert_eq!(
        CommandDetails::from_items(&other),
        Err(vec![
            details_at(1, DetailsError::UnexpectedFormat(Field::RequiredPermissions)),
            details_at(2, DetailsError::UnexpectedFormat(Field::ErrorHandler))
        ])
    );
}

#[test]
fn field_names_are_recognised() {
    assert_eq!(field_of(&"description".to_string()), Some(Field::Description));
    assert_eq!(field_of(&"required_permissions".to_string()), Some(Field::RequiredPermissions));
    assert_eq!(field_of(&"checks".to_string()), Some(Field::Checks));
    assert_eq!(field_of(&"error_handler".to_string()), Some(Field::ErrorHandler));
    assert_eq!(field_of(&"nsfw".to_string()), Some(Field::Nsfw));
    assert_eq!(field_of(&"only_guilds".to_string()), Some(Field::OnlyGuilds));
    assert_eq!(field_of(&"Description".to_string()), None);
    assert_eq!(field_of(&"".to_string()), None);
}

#[test]
fn to_tokens_writes_the_builder_calls() {
    let details = CommandDetails {
        description: "Bans a \"member\"".to_string(),
        required_permissions: Some(vec![
            details_ident("BAN_MEMBERS"),
            details_ident("KICK_MEMBERS"),
        ]),
        checks: vec![details_path("is_admin"), details_path("guards::is_sober")],
        error_handler: Some(details_path("handlers::handle_error")),
        nsfw: true,
        only_guilds: false,
    };
    assert_eq!(
        details_written(&details),
        details_rendered(
            ".description(\"Bans a \\\"member\\\"\")\
             .required_permissions(zephyrus::twilight_exports::Permissions::BAN_MEMBERS \
                | zephyrus::twilight_exports::Permissions::KICK_MEMBERS)\
             .checks(vec![is_admin(), guards::is_sober()])\
             .error_handler(handlers::handle_error())\
             .nsfw(true)\
             .only_guilds(false)"
        )
    );
}

#[test]
fn to_tokens_leaves_out_what_is_not_given() {
    let details = CommandDetails { only_guilds: true, ..details_plain() };
    let mut stream: TokenStream = "builder".parse().unwrap();
    details.to_tokens(&mut stream);
    assert_eq!(
        stream.to_string(),
        details_rendered(
            "builder.description(\"Says hello\").checks(vec![]).nsfw(false).only_guilds(true)"
        )
    );

    let single = CommandDetails {
        required_permissions: Some(vec![details_ident("ADMINISTRATOR")]),
        ..details.clone()
    };
    assert_eq!(
        details_written(&single),
        details_rendered(
            ".description(\"Says hello\")\
             .required_permissions(zephyrus::twilight_exports::Permissions::ADMINISTRATOR)\
             .checks(vec![]).nsfw(false).only_guilds(true)"
        )
    );

    let none = CommandDetails { required_permissions: Some(Vec::new()), ..details };
    assert_eq!(
        details_written(&none),
        details_rendered(
            ".description(\"Says hello\").required_permissions().checks(vec![])\
             .nsfw(false).only_guilds(true)"
        )
    );
}

#[test]
fn parsed_details_can_be_written_back() {
    let details = details_parse(
        "#[description = \"Ping\"] #[checks(a::b::c)] #[error_handler(oops)]",
    )
    .ok()
    .unwrap();
    assert_eq!(
        details_written(&details),
        details_rendered(
            ".description(\"Ping\").checks(vec![a::b::c()]).error_handler(oops())\
             .nsfw(false).only_guilds(false)"
        )
    );
}

#[test]
fn list_entries_are_taken_by_form_and_reading() {
    let text = Some("hi".to_string());
    let path = Some(details_path("a::b"));
    assert_eq!(
        list_item_from(Shape::Literal, text.clone(), path.clone()),
        ListItem::Text("hi".to_string())
    );
    assert_eq!(list_item_from(Shape::Literal, None, path.clone()), ListItem::Other);
    assert_eq!(
        list_item_from(Shape::Word, text.clone(), path.clone()),
        ListItem::Path(details_path("a::b"))
    );
    assert_eq!(list_item_from(Shape::Word, text.clone(), None), ListItem::Other);
    assert_eq!(list_item_from(Shape::List, text.clone(), path.clone()), ListItem::Other);
    assert_eq!(list_item_from(Shape::NameValue, text, path), ListItem::Other);
}

#[test]
fn attribute_values_are_taken_by_form_and_reading() {
    let text = Some("true".to_string());
    let paths = Some(vec![details_path("a")]);
    let entries = Some(vec![ListItem::Text("x".to_string()), ListItem::Other]);
    assert_eq!(
        meta_value_from(Shape::Word, text.clone(), Some(true), paths.clone(), entries.clone()),
        MetaValue::Word
    );
    assert_eq!(
        meta_value_from(Shape::Literal, text.clone(), Some(true), paths.clone(), entries.clone()),
        MetaValue::Other
    );
    assert_eq!(
        meta_value_from(Shape::NameValue, text.clone(), Some(true), paths.clone(), entries.clone()),
        MetaValue::NameValue { text: text.clone(), flag: Some(true), paths: paths.clone() }
    );
    assert_eq!(
        meta_value_from(Shape::NameValue, None, None, None, None),
        MetaValue::NameValue { text: None, flag: None, paths: None }
    );
    assert_eq!(
        meta_value_from(Shape::List, text.clone(), None, paths.clone(), entries.clone()),
        MetaValue::List(vec![ListItem::Text("x".to_string()), ListItem::Other])
    );
    assert_eq!(meta_value_from(Shape::List, text, None, paths, None), MetaValue::Other);
}
