//! Pages of the provisioning portal.

use vstd::prelude::*;

verus! {

/// The provisioning form.
pub const HTML_FORM: &'static str = r#"<!DOCTYPE html>
<html lang="en">
<head>
  <meta charset="UTF-8">
  <meta name="viewport" content="width=device-width, initial-scale=1">
  <title>Open Sesame Setup</title>
  <style>
    *, *::before, *::after { box-sizing: border-box; margin: 0; padding: 0; }
    body {
      font-family: -apple-system, BlinkMacSystemFont, "Segoe UI", sans-serif;
      background: #0f172a; color: #e2e8f0;
      min-height: 100vh; display: flex;
      align-items: center; justify-content: center; padding: 1rem;
    }
    .card {
      background: #1e293b; border: 1px solid #334155;
      border-radius: 12px; padding: 2rem; width: 100%; max-width: 420px;
      box-shadow: 0 20px 60px rgba(0,0,0,.5);
    }
    .logo { text-align:center; margin-bottom:1.5rem; }
    .logo svg { width:48px; height:48px; color:#38bdf8; }
    h1 { font-size:1.4rem; font-weight:600; text-align:center; margin-bottom:.25rem; color:#f1f5f9; }
    .subtitle { text-align:center; font-size:.85rem; color:#94a3b8; margin-bottom:1.75rem; }
    .section-title {
      font-size:.7rem; font-weight:600; letter-spacing:.1em;
      text-transform:uppercase; color:#38bdf8; margin-bottom:.75rem; margin-top:1.25rem;
    }
    label { display:block; font-size:.8rem; color:#94a3b8; margin-bottom:.3rem; }
    input {
      display:block; width:100%; padding:.6rem .75rem;
      background:#0f172a; border:1px solid #334155; border-radius:7px;
      color:#f1f5f9; font-size:.9rem; margin-bottom:.9rem;
      transition:border-color .15s; outline:none;
    }
    input:focus { border-color:#38bdf8; }
    input::placeholder { color:#475569; }
    hr { border:none; border-top:1px solid #334155; margin:1rem 0; }
    button {
      width:100%; padding:.75rem; background:#0284c7; color:#fff;
      border:none; border-radius:8px; font-size:.95rem; font-weight:600;
      cursor:pointer; margin-top:.5rem; transition:background .15s;
    }
    button:hover  { background:#0369a1; }
    button:active { background:#075985; }
    .note { font-size:.75rem; color:#64748b; text-align:center; margin-top:1rem; }
  </style>
</head>
<body>
<div class="card">
  <div class="logo">
    <svg viewBox="0 0 24 24" fill="none" stroke="currentColor"
         stroke-width="1.5" stroke-linecap="round" stroke-linejoin="round">
      <rect x="2" y="3" width="20" height="18" rx="2"/>
      <line x1="12" y1="3" x2="12" y2="21"/>
      <polyline points="8 10 5 12 8 14"/>
    </svg>
  </div>
  <h1>Open Sesame Setup</h1>
  <p class="subtitle">Configure WiFi and MQTT connection</p>
  <form method="POST" action="/save">
    <div class="section-title">WiFi</div>
    <label for="ssid">Network Name (SSID)</label>
    <input type="text"     id="ssid"      name="ssid"      placeholder="MyHomeNetwork" required autocomplete="off">
    <label for="wpass">Password</label>
    <input type="password" id="wpass"     name="wpass"     placeholder="••••••••" autocomplete="off">
    <hr>
    <div class="section-title">MQTT Broker</div>
    <label for="broker">Broker URL</label>
    <input type="text"     id="broker"    name="broker"    placeholder="mqtt://192.168.1.100:1883" required>
    <label for="client_id">Client ID</label>
    <input type="text"     id="client_id" name="client_id" placeholder="sliding-door" value="sliding-door">
    <label for="muser">Username <span style="color:#475569">(optional)</span></label>
    <input type="text"     id="muser"     name="muser"     placeholder="homeassistant" autocomplete="off">
    <label for="mpass">Password <span style="color:#475569">(optional)</span></label>
    <input type="password" id="mpass"     name="mpass"     placeholder="••••••••" autocomplete="off">
    <button type="submit">Save &amp; Restart</button>
  </form>
  <p class="note">The device will restart automatically after saving.</p>
</div>
</body></html>
"#;

/// Shown once the settings were taken.
pub const HTML_SUCCESS: &'static str = r#"<!DOCTYPE html>
<html lang="en">
<head>
  <meta charset="UTF-8">
  <meta name="viewport" content="width=device-width,initial-scale=1">
  <title>Saved!</title>
  <style>
    body { font-family:sans-serif; background:#0f172a; color:#e2e8f0;
           min-height:100vh; display:flex; align-items:center; justify-content:center; }
    .card { background:#1e293b; border:1px solid #334155; border-radius:12px;
            padding:2.5rem 2rem; text-align:center; max-width:360px; }
    .icon { font-size:3rem; margin-bottom:1rem; }
    h1 { font-size:1.3rem; margin-bottom:.5rem; color:#f1f5f9; }
    p  { color:#94a3b8; font-size:.9rem; line-height:1.5; }
    .badge { display:inline-block; margin-top:1.25rem; padding:.3rem .9rem;
             background:#022c22; color:#4ade80; border:1px solid #166534;
             border-radius:99px; font-size:.8rem; font-weight:600; }
  </style>
</head>
<body>
<div class="card">
  <div class="icon">✅</div>
  <h1>Configuration Saved</h1>
  <p>Your settings have been stored.<br>
     Open Sesame is restarting and will join your network shortly.</p>
  <div class="badge">You can close this page</div>
</div>
</body></html>
"#;

/// Shown where a required field is missing.
pub const HTML_ERROR: &'static str = r#"<!DOCTYPE html>
<html lang="en">
<head>
  <meta charset="UTF-8">
  <meta name="viewport" content="width=device-width,initial-scale=1">
  <title>Error</title>
  <style>
    body { font-family:sans-serif; background:#0f172a; color:#e2e8f0;
           min-height:100vh; display:flex; align-items:center; justify-content:center; }
    .card { background:#1e293b; border:1px solid #7f1d1d; border-radius:12px;
            padding:2rem; text-align:center; max-width:360px; }
    .icon { font-size:3rem; margin-bottom:1rem; }
    h1 { color:#fca5a5; margin-bottom:.5rem; }
    p  { color:#94a3b8; font-size:.9rem; }
    a  { color:#38bdf8; }
  </style>
</head>
<body>
<div class="card">
  <div class="icon">⚠️</div>
  <h1>Missing Required Fields</h1>
  <p>SSID and MQTT Broker URL are required.<br>
     <a href="/">Go back and try again</a>.</p>
</div>
</body></html>
"#;

} // verus!
