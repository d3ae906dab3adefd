use authorization::{evaluate, Action, Context, Policy, Principal, Resource, StringMap};

#[test]
fn should_return_none_when_no_policies_have_been_provided() {
    // Arrange
    let context = Context {
        action: Action {
            noun: "user".to_string(),
            scope: "identity".to_string(),
            verb: "get".to_string(),
        },
        data: StringMap::new(),
        principal: Principal {
            id: "1".to_string(),
            noun: "user".to_string(),
            scope: "first-party".to_string(),
        },
        resource: Resource {
            id: "1".to_string(),
            noun: "user".to_string(),
            scope: "identity".to_string(),
        },
    };
    let policies: Vec<Policy> = vec![];

    // Act
    let result = evaluate(&context, &policies);

    // Assert
    assert_eq!(result, None);
}
