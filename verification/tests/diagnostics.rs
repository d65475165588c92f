//! Checks that the places where the runtimes of the desktop shell are looked
//! for can be probed on any machine.

use std::path::Path;

/// Test filesystem access for WebView2 detection
#[test]
fn test_webview2_filesystem_access() {
    // Test: Check for WebView2 in system paths
    let system_paths = [
        r"C:\Program Files (x86)\Microsoft\EdgeWebView\Application",
        r"C:\Program Files\Microsoft\EdgeWebView\Application",
    ];

    // Note: We don't assert that paths exist, just that we can check them
    for path in &system_paths {
        let webview2_path = Path::new(path);
        // This should not panic, regardless of whether path exists
        let _ = webview2_path.exists();
    }
}

/// Test DLL detection for VC++ runtime
#[test]
fn test_vcredist_dll_detection() {
    // Test: Check for VC++ runtime DLLs
    let system_dlls = [
        r"C:\Windows\System32\vcruntime140.dll",
        r"C:\Windows\System32\msvcp140.dll",
        r"C:\Windows\SysWOW64\vcruntime140.dll",
        r"C:\Windows\SysWOW64\msvcp140.dll",
    ];

    let mut found_count = 0;
    for dll_path in &system_dlls {
        if Path::new(dll_path).exists() {
            found_count += 1;
        }
    }

    // Note: We expect at least some DLLs to be present on a Windows system
    // But we don't make it a hard requirement for the test to pass
    println!("Found {} of {} VC++ runtime DLLs", found_count, system_dlls.len());
}
