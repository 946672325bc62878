use asyncfs::context::Context;

#[test]
fn context_test() {
    let mut ctx: Context<usize> = Context::new();
    assert_eq!(ctx.get(), None);

    let _g = ctx.set(0);
    assert_eq!(ctx.get(), Some(0));

    {
        assert_eq!(ctx.get(), Some(0));

        let g = ctx.set(1);
        assert_eq!(ctx.get(), Some(1));
        ctx.restore(g);
    }

    assert_eq!(ctx.get(), Some(0));
}

#[test]
fn context_pop_ends_innermost_setting() {
    let mut ctx: Context<u8> = Context::new();
    let _a = ctx.set(3);
    let _b = ctx.set(4);
    assert_eq!(ctx.get(), Some(4));
    ctx.pop();
    assert_eq!(ctx.get(), Some(3));
    ctx.pop();
    assert_eq!(ctx.get(), None);
    ctx.pop();
    assert_eq!(ctx.get(), None);
}

#[test]
fn context_restore_ends_nested_settings() {
    let mut ctx: Context<i32> = Context::new();
    let outer = ctx.set(1);
    let _mid = ctx.set(2);
    let _inner = ctx.set(3);
    assert_eq!(ctx.get(), Some(3));
    ctx.restore(outer);
    assert_eq!(ctx.get(), None);
}

#[test]
fn context_stale_guard_changes_nothing() {
    let mut ctx: Context<i32> = Context::new();
    let _a = ctx.set(1);
    let b = ctx.set(2);
    ctx.pop();
    ctx.pop();
    let _c = ctx.set(7);
    // `b` guarded a setting made at depth 1, which has ended; depth 1 is
    // still reachable here, so restoring it keeps only the settings below.
    ctx.restore(b);
    assert_eq!(ctx.get(), Some(7));
}
