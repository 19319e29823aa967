//! Auth core: JWT flows, API keys, RBAC, middleware.

use llm_orchestrator::auth::api_keys::{ApiKeyManager, InMemoryApiKeyStore};
use llm_orchestrator::auth::jwt::JwtAuth;
use llm_orchestrator::auth::middleware::{scopes_to_permissions, scopes_to_roles, AuthMiddleware};
use llm_orchestrator::auth::models::{ApiKeyInfo, AuthContext, AuthError, AuthType, Permission};
use llm_orchestrator::auth::rbac::RbacEngine;
use llm_orchestrator::hashing::sha256_hex;
use llm_orchestrator::ident::random_alphanumeric_48;

fn create_test_jwt_auth() -> JwtAuth {
    JwtAuth::new(b"test-secret-key-at-least-32-bytes-long".to_vec())
}

#[test]
fn test_generate_and_verify_token() {
    let jwt_auth = create_test_jwt_auth();
    let token = jwt_auth
        .generate_token("user123", vec!["admin".to_string()])
        .unwrap();

    let claims = jwt_auth.verify_token(&token).unwrap();
    assert_eq!(claims.sub, "user123");
    assert_eq!(claims.roles, vec!["admin".to_string()]);
    assert_eq!(claims.iss, "llm-orchestrator");
}

#[test]
fn test_generate_and_verify_refresh_token() {
    let jwt_auth = create_test_jwt_auth();
    let token = jwt_auth.generate_refresh_token("user123").unwrap();

    let user_id = jwt_auth.verify_refresh_token(&token).unwrap();
    assert_eq!(user_id, "user123");
}

#[test]
fn test_invalid_token() {
    let jwt_auth = create_test_jwt_auth();
    let result = jwt_auth.verify_token("invalid.token.here");
    assert!(result.is_err());
}

#[test]
fn test_token_with_different_secret() {
    let jwt_auth1 = JwtAuth::new(b"secret1-at-least-32-bytes-long-abc".to_vec());
    let jwt_auth2 = JwtAuth::new(b"secret2-at-least-32-bytes-long-xyz".to_vec());

    let token = jwt_auth1
        .generate_token("user123", vec!["admin".to_string()])
        .unwrap();

    let result = jwt_auth2.verify_token(&token);
    assert!(result.is_err());
}

#[test]
fn test_refresh_access_token() {
    let jwt_auth = create_test_jwt_auth();
    let refresh_token = jwt_auth.generate_refresh_token("user123").unwrap();

    let access_token = jwt_auth
        .refresh_access_token(&refresh_token, vec!["developer".to_string()])
        .unwrap();

    let claims = jwt_auth.verify_token(&access_token).unwrap();
    assert_eq!(claims.sub, "user123");
    assert_eq!(claims.roles, vec!["developer".to_string()]);
}

#[test]
fn test_builder_custom_settings() {
    let jwt_auth = JwtAuth::builder(b"test-secret-key-at-least-32-bytes-long".to_vec())
        .issuer("custom-issuer".to_string())
        .expiry_seconds(3600)
        .build();

    let token = jwt_auth
        .generate_token("user123", vec!["admin".to_string()])
        .unwrap();

    let claims = jwt_auth.verify_token(&token).unwrap();
    assert_eq!(claims.iss, "custom-issuer");
}

#[test]
fn test_token_has_jti() {
    let jwt_auth = create_test_jwt_auth();
    let token = jwt_auth
        .generate_token("user123", vec!["admin".to_string()])
        .unwrap();

    let claims = jwt_auth.verify_token(&token).unwrap();
    assert!(claims.jti.is_some());
}

#[test]
fn test_access_token_not_accepted_as_refresh() {
    let jwt_auth = create_test_jwt_auth();
    let token = jwt_auth
        .generate_token("user123", vec!["admin".to_string()])
        .unwrap();
    assert!(jwt_auth.verify_refresh_token(&token).is_err());
}

// --- RBAC ---

#[test]
fn test_default_roles_exist() {
    let rbac = RbacEngine::new();

    assert!(rbac.get_role("viewer").is_some());
    assert!(rbac.get_role("executor").is_some());
    assert!(rbac.get_role("developer").is_some());
    assert!(rbac.get_role("admin").is_some());
}

#[test]
fn test_viewer_permissions() {
    let rbac = RbacEngine::new();

    let permissions = rbac.compute_permissions(&vec!["viewer".to_string()]);

    assert!(permissions.contains(&Permission::WorkflowRead));
    assert!(permissions.contains(&Permission::ExecutionRead));
    assert!(!permissions.contains(&Permission::WorkflowWrite));
    assert!(!permissions.contains(&Permission::WorkflowExecute));
}

#[test]
fn test_executor_permissions() {
    let rbac = RbacEngine::new();

    let permissions = rbac.compute_permissions(&vec!["executor".to_string()]);

    assert!(permissions.contains(&Permission::WorkflowRead));
    assert!(permissions.contains(&Permission::WorkflowExecute));
    assert!(permissions.contains(&Permission::ExecutionRead));
    assert!(!permissions.contains(&Permission::WorkflowWrite));
}

#[test]
fn test_developer_permissions() {
    let rbac = RbacEngine::new();

    let permissions = rbac.compute_permissions(&vec!["developer".to_string()]);

    assert!(permissions.contains(&Permission::WorkflowRead));
    assert!(permissions.contains(&Permission::WorkflowWrite));
    assert!(permissions.contains(&Permission::WorkflowExecute));
    assert!(permissions.contains(&Permission::ExecutionRead));
    assert!(permissions.contains(&Permission::ExecutionCancel));
}

#[test]
fn test_admin_has_all_permissions() {
    let rbac = RbacEngine::new();

    let permissions = rbac.compute_permissions(&vec!["admin".to_string()]);

    for permission in Permission::all() {
        assert!(permissions.contains(&permission));
    }
}

#[test]
fn test_multiple_roles_union_permissions() {
    let rbac = RbacEngine::new();

    let permissions =
        rbac.compute_permissions(&vec!["viewer".to_string(), "executor".to_string()]);

    assert!(permissions.contains(&Permission::WorkflowRead));
    assert!(permissions.contains(&Permission::WorkflowExecute));
    assert!(permissions.contains(&Permission::ExecutionRead));
}

#[test]
fn test_check_permission() {
    let rbac = RbacEngine::new();

    assert!(rbac.check_permission(&vec!["viewer".to_string()], &Permission::WorkflowRead));
    assert!(!rbac.check_permission(&vec!["viewer".to_string()], &Permission::WorkflowWrite));
    assert!(rbac.check_permission(&vec!["developer".to_string()], &Permission::WorkflowWrite));
}

#[test]
fn test_admin_has_all_permissions_check() {
    let rbac = RbacEngine::new();

    for permission in Permission::all() {
        assert!(rbac.check_permission(&vec!["admin".to_string()], &permission));
    }
}

#[test]
fn test_add_custom_role() {
    let mut rbac = RbacEngine::new();

    rbac.add_role(
        "custom_role",
        vec![Permission::WorkflowRead, Permission::WorkflowExecute],
        Some("Custom role for testing".to_string()),
    );

    let role = rbac.get_role("custom_role").unwrap();
    assert_eq!(role.permissions.len(), 2);
    assert_eq!(role.description, Some("Custom role for testing".to_string()));
}

#[test]
fn test_remove_role() {
    let mut rbac = RbacEngine::new();

    rbac.add_role("temp_role", vec![Permission::WorkflowRead], None);
    assert!(rbac.get_role("temp_role").is_some());

    rbac.remove_role("temp_role").unwrap();
    assert!(rbac.get_role("temp_role").is_none());
}

#[test]
fn test_remove_nonexistent_role() {
    let mut rbac = RbacEngine::new();

    let result = rbac.remove_role("nonexistent");
    assert!(matches!(result, Err(AuthError::RoleNotFound(_))));
}

#[test]
fn test_list_roles() {
    let rbac = RbacEngine::new();

    let roles = rbac.list_roles();
    assert!(roles.contains(&"viewer".to_string()));
    assert!(roles.contains(&"executor".to_string()));
    assert!(roles.contains(&"developer".to_string()));
    assert!(roles.contains(&"admin".to_string()));
}

#[test]
fn test_add_then_remove_custom_role_keeps_roles() {
    let mut rbac = RbacEngine::new();
    let mut before = rbac.list_roles();
    before.sort();

    rbac.add_role("temporary", vec![Permission::WorkflowRead], None);
    rbac.remove_role("temporary").unwrap();

    let mut after = rbac.list_roles();
    after.sort();
    assert_eq!(before, after);
}

#[test]
fn test_require_permission_success() {
    let rbac = RbacEngine::new();

    let ctx = AuthContext {
        user_id: "user123".to_string(),
        roles: vec!["developer".to_string()],
        permissions: rbac.compute_permissions(&vec!["developer".to_string()]),
        auth_type: AuthType::Jwt("token".to_string()),
        expires_at: u64::MAX,
    };

    assert!(rbac.require_permission(&ctx, &Permission::WorkflowWrite).is_ok());
}

#[test]
fn test_require_permission_failure() {
    let rbac = RbacEngine::new();

    let ctx = AuthContext {
        user_id: "user123".to_string(),
        roles: vec!["viewer".to_string()],
        permissions: rbac.compute_permissions(&vec!["viewer".to_string()]),
        auth_type: AuthType::Jwt("token".to_string()),
        expires_at: u64::MAX,
    };

    let result = rbac.require_permission(&ctx, &Permission::WorkflowWrite);
    assert!(matches!(result, Err(AuthError::InsufficientPermissions(_, _))));
}

#[test]
fn test_check_all_permissions() {
    let rbac = RbacEngine::new();

    let permissions = vec![Permission::WorkflowRead, Permission::ExecutionRead];

    assert!(rbac.check_all_permissions(&vec!["viewer".to_string()], &permissions));

    let permissions_with_write = vec![
        Permission::WorkflowRead,
        Permission::WorkflowWrite,
        Permission::ExecutionRead,
    ];

    assert!(!rbac.check_all_permissions(&vec!["viewer".to_string()], &permissions_with_write));
    assert!(rbac.check_all_permissions(&vec!["developer".to_string()], &permissions_with_write));
}

#[test]
fn test_check_any_permission() {
    let rbac = RbacEngine::new();

    let permissions = vec![Permission::WorkflowWrite, Permission::WorkflowDelete];

    assert!(!rbac.check_any_permission(&vec!["viewer".to_string()], &permissions));
    assert!(rbac.check_any_permission(&vec!["developer".to_string()], &permissions));
}

#[test]
fn test_validate_roles_success() {
    let rbac = RbacEngine::new();

    let result = rbac.validate_roles(&vec!["viewer".to_string(), "executor".to_string()]);
    assert!(result.is_ok());
}

#[test]
fn test_validate_roles_failure() {
    let rbac = RbacEngine::new();

    let result = rbac.validate_roles(&vec!["viewer".to_string(), "invalid_role".to_string()]);
    assert!(matches!(result, Err(AuthError::RoleNotFound(_))));
}

#[test]
fn test_empty_roles_no_permissions() {
    let rbac = RbacEngine::new();

    let permissions = rbac.compute_permissions(&vec![]);
    assert!(permissions.is_empty());
}

// --- API keys ---

fn create_test_manager() -> ApiKeyManager<InMemoryApiKeyStore> {
    ApiKeyManager::new(InMemoryApiKeyStore::new())
}

#[test]
fn test_create_api_key() {
    let mut manager = create_test_manager();

    let key = manager
        .create_key(
            "user123",
            vec!["workflow:read".to_string(), "workflow:execute".to_string()],
            Some("Test Key".to_string()),
            Some(30),
        )
        .unwrap();

    assert!(key.key.starts_with("llm_orch_"));
    assert_eq!(key.user_id, "user123");
    assert_eq!(key.scopes.len(), 2);
    assert_eq!(key.name, Some("Test Key".to_string()));
    assert!(key.expires_at_ms.is_some());
}

#[test]
fn test_lookup_valid_key() {
    let mut manager = create_test_manager();

    let key = manager
        .create_key("user123", vec!["workflow:read".to_string()], None, None)
        .unwrap();

    let looked_up = manager.lookup_key(&key.key).unwrap();

    assert_eq!(looked_up.user_id, "user123");
    assert_eq!(looked_up.scopes, vec!["workflow:read".to_string()]);
    assert!(looked_up.last_used_at_ms.is_some());
}

#[test]
fn test_lookup_invalid_key() {
    let mut manager = create_test_manager();

    let result = manager.lookup_key("invalid_key");
    assert!(matches!(result, Err(AuthError::ApiKeyNotFound)));
}

#[test]
fn test_lookup_expired_key() {
    let mut manager = create_test_manager();

    let key = manager
        .create_key("user123", vec!["workflow:read".to_string()], None, None)
        .unwrap();

    let mut store = InMemoryApiKeyStore::new();
    store.keys.push(ApiKeyInfo {
        id: key.id.clone(),
        key_hash: key.key_hash.clone(),
        user_id: key.user_id.clone(),
        scopes: key.scopes.clone(),
        created_at_ms: key.created_at_ms,
        expires_at_ms: Some(0),
        name: key.name.clone(),
        last_used_at_ms: None,
    });
    let mut manager_with_expired = ApiKeyManager::new(store);

    let result = manager_with_expired.lookup_key(&key.key);
    assert!(matches!(result, Err(AuthError::ApiKeyExpired)));
}

#[test]
fn test_revoke_key() {
    let mut manager = create_test_manager();

    let key = manager
        .create_key("user123", vec!["workflow:read".to_string()], None, None)
        .unwrap();

    manager.revoke_key(&key.id).unwrap();

    let result = manager.lookup_key(&key.key);
    assert!(matches!(result, Err(AuthError::ApiKeyNotFound)));
}

#[test]
fn test_list_user_keys() {
    let mut manager = create_test_manager();

    manager
        .create_key("user123", vec!["workflow:read".to_string()], None, None)
        .unwrap();
    manager
        .create_key("user123", vec!["workflow:write".to_string()], None, None)
        .unwrap();
    manager
        .create_key("user456", vec!["workflow:read".to_string()], None, None)
        .unwrap();

    let user123_keys = manager.list_keys("user123").unwrap();
    assert_eq!(user123_keys.len(), 2);

    let user456_keys = manager.list_keys("user456").unwrap();
    assert_eq!(user456_keys.len(), 1);
}

#[test]
fn test_key_hash_consistency() {
    let key1 = "test_key_123";
    let hash1 = sha256_hex(key1);
    let hash2 = sha256_hex(key1);

    assert_eq!(hash1, hash2);
    assert_eq!(hash1.len(), 64);
}

#[test]
fn test_different_keys_different_hashes() {
    let hash1 = sha256_hex("key1");
    let hash2 = sha256_hex("key2");

    assert_ne!(hash1, hash2);
}

#[test]
fn test_generated_keys_are_unique() {
    let key1 = random_alphanumeric_48();
    let key2 = random_alphanumeric_48();

    assert_ne!(key1, key2);
    assert_eq!(key1.len(), 48);
    assert_eq!(key2.len(), 48);
}

// --- middleware ---

fn create_test_middleware() -> AuthMiddleware<InMemoryApiKeyStore> {
    let jwt_auth = JwtAuth::new(b"test-secret-key-at-least-32-bytes-long".to_vec());
    let api_key_manager = ApiKeyManager::new(InMemoryApiKeyStore::new());
    let rbac = RbacEngine::new();
    AuthMiddleware::new(jwt_auth, api_key_manager, rbac)
}

#[test]
fn test_authenticate_with_jwt() {
    let mut middleware = create_test_middleware();

    let token = middleware
        .jwt_auth
        .generate_token("user123", vec!["developer".to_string()])
        .unwrap();

    let auth_header = format!("Bearer {}", token);
    let ctx = middleware.authenticate(Some(&auth_header)).unwrap();

    assert_eq!(ctx.user_id, "user123");
    assert_eq!(ctx.roles, vec!["developer".to_string()]);
    assert!(matches!(ctx.auth_type, AuthType::Jwt(_)));
}

#[test]
fn test_authenticate_with_api_key() {
    let mut middleware = create_test_middleware();

    let api_key = middleware
        .api_key_manager
        .create_key(
            "user456",
            vec!["workflow:read".to_string(), "workflow:execute".to_string()],
            None,
            None,
        )
        .unwrap();

    let auth_header = format!("ApiKey {}", api_key.key);
    let ctx = middleware.authenticate(Some(&auth_header)).unwrap();

    assert_eq!(ctx.user_id, "user456");
    assert!(matches!(ctx.auth_type, AuthType::ApiKey(_)));
    assert!(ctx.permissions.contains(&Permission::WorkflowRead));
    assert!(ctx.permissions.contains(&Permission::WorkflowExecute));
}

#[test]
fn test_authenticate_missing_credentials() {
    let mut middleware = create_test_middleware();

    let result = middleware.authenticate(None);
    assert!(matches!(result, Err(AuthError::MissingCredentials)));
}

#[test]
fn test_authenticate_invalid_format() {
    let mut middleware = create_test_middleware();

    let result = middleware.authenticate(Some("InvalidFormat token"));
    assert!(matches!(result, Err(AuthError::InvalidCredentials)));
}

#[test]
fn test_authenticate_invalid_jwt() {
    let mut middleware = create_test_middleware();

    let result = middleware.authenticate(Some("Bearer invalid.jwt.token"));
    assert!(result.is_err());
}

#[test]
fn test_authenticate_invalid_api_key() {
    let mut middleware = create_test_middleware();

    let result = middleware.authenticate(Some("ApiKey invalid_key"));
    assert!(matches!(result, Err(AuthError::ApiKeyNotFound)));
}

#[test]
fn test_authorize_success() {
    let mut middleware = create_test_middleware();

    let token = middleware
        .jwt_auth
        .generate_token("user123", vec!["developer".to_string()])
        .unwrap();

    let auth_header = format!("Bearer {}", token);
    let ctx = middleware.authenticate(Some(&auth_header)).unwrap();

    let result = middleware.authorize(&ctx, &Permission::WorkflowWrite);
    assert!(result.is_ok());
}

#[test]
fn test_authorize_failure() {
    let mut middleware = create_test_middleware();

    let token = middleware
        .jwt_auth
        .generate_token("user123", vec!["viewer".to_string()])
        .unwrap();

    let auth_header = format!("Bearer {}", token);
    let ctx = middleware.authenticate(Some(&auth_header)).unwrap();

    let result = middleware.authorize(&ctx, &Permission::WorkflowWrite);
    assert!(matches!(result, Err(AuthError::InsufficientPermissions(_, _))));
}

#[test]
fn test_extract_bearer_token() {
    let token = AuthMiddleware::<InMemoryApiKeyStore>::extract_bearer_token(Some("Bearer abc123"));
    assert_eq!(token, Some("abc123".to_string()));

    let none = AuthMiddleware::<InMemoryApiKeyStore>::extract_bearer_token(Some("ApiKey abc123"));
    assert_eq!(none, None);

    let none = AuthMiddleware::<InMemoryApiKeyStore>::extract_bearer_token(None);
    assert_eq!(none, None);
}

#[test]
fn test_extract_api_key() {
    let key = AuthMiddleware::<InMemoryApiKeyStore>::extract_api_key(Some("ApiKey abc123"));
    assert_eq!(key, Some("abc123".to_string()));

    let none = AuthMiddleware::<InMemoryApiKeyStore>::extract_api_key(Some("Bearer abc123"));
    assert_eq!(none, None);

    let none = AuthMiddleware::<InMemoryApiKeyStore>::extract_api_key(None);
    assert_eq!(none, None);
}

#[test]
fn test_scopes_to_permissions() {
    let scopes = vec![
        "workflow:read".to_string(),
        "workflow:write".to_string(),
        "workflow:execute".to_string(),
    ];

    let permissions = scopes_to_permissions(&scopes);

    assert_eq!(permissions.len(), 3);
    assert!(permissions.contains(&Permission::WorkflowRead));
    assert!(permissions.contains(&Permission::WorkflowWrite));
    assert!(permissions.contains(&Permission::WorkflowExecute));
}

#[test]
fn test_scopes_to_roles() {
    let scopes = vec![
        "workflow:read".to_string(),
        "workflow:write".to_string(),
        "workflow:execute".to_string(),
    ];
    let roles = scopes_to_roles(&scopes);
    assert_eq!(roles, vec!["developer".to_string()]);

    let scopes = vec!["workflow:read".to_string(), "workflow:execute".to_string()];
    let roles = scopes_to_roles(&scopes);
    assert_eq!(roles, vec!["executor".to_string()]);

    let scopes = vec!["workflow:read".to_string()];
    let roles = scopes_to_roles(&scopes);
    assert_eq!(roles, vec!["viewer".to_string()]);

    let scopes = vec!["admin".to_string()];
    let roles = scopes_to_roles(&scopes);
    assert_eq!(roles, vec!["admin".to_string()]);
}

// --- end-to-end flows ---

#[test]
fn test_full_jwt_flow() {
    let jwt_auth = JwtAuth::new(b"test-secret-key-at-least-32-bytes-long".to_vec());
    let api_key_manager = ApiKeyManager::new(InMemoryApiKeyStore::new());
    let rbac = RbacEngine::new();
    let mut auth = AuthMiddleware::new(jwt_auth, api_key_manager, rbac);

    let token = auth
        .jwt_auth
        .generate_token("user123", vec!["developer".to_string()])
        .unwrap();

    let auth_header = format!("Bearer {}", token);
    let ctx = auth.authenticate(Some(&auth_header)).unwrap();

    assert_eq!(ctx.user_id, "user123");
    assert_eq!(ctx.roles, vec!["developer".to_string()]);
    assert!(ctx.has_permission(&Permission::WorkflowWrite));

    assert!(auth.authorize(&ctx, &Permission::WorkflowWrite).is_ok());
}

#[test]
fn test_full_api_key_flow() {
    let jwt_auth = JwtAuth::new(b"test-secret-key-at-least-32-bytes-long".to_vec());
    let api_key_manager = ApiKeyManager::new(InMemoryApiKeyStore::new());
    let rbac = RbacEngine::new();
    let mut auth = AuthMiddleware::new(jwt_auth, api_key_manager, rbac);

    let api_key = auth
        .api_key_manager
        .create_key(
            "user456",
            vec!["workflow:read".to_string(), "workflow:execute".to_string()],
            Some("My Test Key".to_string()),
            Some(30),
        )
        .unwrap();

    let auth_header = format!("ApiKey {}", api_key.key);
    let ctx = auth.authenticate(Some(&auth_header)).unwrap();

    assert_eq!(ctx.user_id, "user456");
    assert!(ctx.has_permission(&Permission::WorkflowRead));
    assert!(ctx.has_permission(&Permission::WorkflowExecute));
    assert!(!ctx.has_permission(&Permission::WorkflowWrite));

    let keys = auth.api_key_manager.list_keys("user456").unwrap();
    assert_eq!(keys.len(), 1);
    assert_eq!(keys[0].name, Some("My Test Key".to_string()));

    auth.api_key_manager.revoke_key(&api_key.id).unwrap();

    let result = auth.authenticate(Some(&auth_header));
    assert!(matches!(result, Err(AuthError::ApiKeyNotFound)));
}

#[test]
fn test_refresh_token_flow() {
    let jwt_auth = JwtAuth::new(b"test-secret-key-at-least-32-bytes-long".to_vec());

    let refresh_token = jwt_auth.generate_refresh_token("user789").unwrap();

    let user_id = jwt_auth.verify_refresh_token(&refresh_token).unwrap();
    assert_eq!(user_id, "user789");

    let access_token = jwt_auth
        .refresh_access_token(&refresh_token, vec!["executor".to_string()])
        .unwrap();

    let claims = jwt_auth.verify_token(&access_token).unwrap();
    assert_eq!(claims.sub, "user789");
    assert_eq!(claims.roles, vec!["executor".to_string()]);
}

#[test]
fn test_rbac_permission_checks() {
    let rbac = RbacEngine::new();

    assert!(rbac.check_permission(&vec!["viewer".to_string()], &Permission::WorkflowRead));
    assert!(!rbac.check_permission(&vec!["viewer".to_string()], &Permission::WorkflowWrite));
    assert!(rbac.check_permission(&vec!["executor".to_string()], &Permission::WorkflowExecute));
    assert!(rbac.check_permission(&vec!["developer".to_string()], &Permission::WorkflowWrite));

    for permission in Permission::all() {
        assert!(rbac.check_permission(&vec!["admin".to_string()], &permission));
    }
}

#[test]
fn test_multiple_roles() {
    let jwt_auth = JwtAuth::new(b"test-secret-key-at-least-32-bytes-long".to_vec());
    let rbac = RbacEngine::new();

    let token = jwt_auth
        .generate_token(
            "user123",
            vec!["viewer".to_string(), "executor".to_string()],
        )
        .unwrap();

    let claims = jwt_auth.verify_token(&token).unwrap();

    let permissions = rbac.compute_permissions(&claims.roles);

    assert!(permissions.contains(&Permission::WorkflowRead));
    assert!(permissions.contains(&Permission::WorkflowExecute));
    assert!(permissions.contains(&Permission::ExecutionRead));
}

#[test]
fn test_api_key_prefix_and_digest() {
    let mut manager = create_test_manager();
    let key = manager
        .create_key("user1", vec!["workflow:read".to_string()], None, None)
        .unwrap();
    assert_eq!(key.key.len(), "llm_orch_".len() + 48);
    assert_eq!(key.key_hash, sha256_hex(&key.key));
}
