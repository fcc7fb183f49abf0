use load_balancer::target::{route, Route};

#[test]
fn get_health_is_a_health_check() {
    assert_eq!(route("GET", "/health"), Route::Health);
    assert_eq!(Route::Health.status(), 200);
}

#[test]
fn get_root_is_the_greeting() {
    assert_eq!(route("GET", "/"), Route::Hello);
    assert_eq!(Route::Hello.status(), 200);
}

#[test]
fn everything_else_is_not_found() {
    assert_eq!(route("POST", "/"), Route::NotFound);
    assert_eq!(route("POST", "/health"), Route::NotFound);
    assert_eq!(route("GET", "/healthz"), Route::NotFound);
    assert_eq!(route("GET", ""), Route::NotFound);
    assert_eq!(route("get", "/"), Route::NotFound);
    assert_eq!(route("GET", "/index.html"), Route::NotFound);
    assert_eq!(Route::NotFound.status(), 404);
}
