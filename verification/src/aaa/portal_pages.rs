//! The captive portal's pages.

use vstd::prelude::*;

verus! {

/// The login page; `{{MAC}}` stands where the client's MAC goes.
pub const LOGIN_HTML_TEMPLATE: &'static str = r##"<!DOCTYPE html>
<html lang="ko">
<head>
<meta charset="UTF-8">
<meta name="viewport" content="width=device-width, initial-scale=1.0">
<title>NAC 네트워크 인증</title>
<style>
  * { box-sizing: border-box; margin: 0; padding: 0; }
  body {
    font-family: -apple-system, BlinkMacSystemFont, "Segoe UI", Roboto, sans-serif;
    background: #f0f2f5;
    display: flex;
    align-items: center;
    justify-content: center;
    min-height: 100vh;
  }
  .container {
    background: #fff;
    border-radius: 12px;
    box-shadow: 0 4px 24px rgba(0,0,0,.12);
    padding: 48px 40px;
    width: 100%;
    max-width: 400px;
  }
  .logo { text-align: center; margin-bottom: 32px; }
  .logo svg { width: 48px; height: 48px; }
  h1 { font-size: 22px; font-weight: 700; color: #1a1a1a; text-align: center; margin-bottom: 8px; }
  p { color: #666; font-size: 14px; text-align: center; margin-bottom: 28px; }
  label { display: block; font-size: 13px; font-weight: 600; color: #444; margin-bottom: 6px; }
  input {
    width: 100%; padding: 12px 14px;
    border: 1.5px solid #ddd; border-radius: 8px;
    font-size: 15px; outline: none;
    transition: border-color .2s;
    margin-bottom: 16px;
  }
  input:focus { border-color: #4f46e5; }
  button {
    width: 100%; padding: 13px;
    background: #4f46e5; color: #fff;
    border: none; border-radius: 8px;
    font-size: 16px; font-weight: 600;
    cursor: pointer; transition: background .2s;
    margin-top: 4px;
  }
  button:hover { background: #4338ca; }
  .footer { text-align: center; margin-top: 24px; font-size: 12px; color: #aaa; }
</style>
</head>
<body>
<div class="container">
  <div class="logo">
    <svg viewBox="0 0 48 48" fill="none" xmlns="http://www.w3.org/2000/svg">
      <rect width="48" height="48" rx="12" fill="#4f46e5"/>
      <path d="M24 12C17.4 12 12 17.4 12 24s5.4 12 12 12 12-5.4 12-12S30.6 12 24 12zm0 4a4 4 0 110 8 4 4 0 010-8zm0 17c-3.3 0-6.2-1.7-8-4.2.04-2.7 5.33-4.1 8-4.1s7.96 1.4 8 4.1C30.2 31.3 27.3 33 24 33z" fill="white"/>
    </svg>
  </div>
  <h1>네트워크 접속 인증</h1>
  <p>이 네트워크를 사용하려면 로그인이 필요합니다.</p>
  <form method="POST" action="/login">
    <input type="hidden" name="mac" value="{{MAC}}">
    <label for="username">사용자명</label>
    <input type="text" id="username" name="username" placeholder="사용자명 입력" required autocomplete="username">
    <label for="password">비밀번호</label>
    <input type="password" id="password" name="password" placeholder="비밀번호 입력" required autocomplete="current-password">
    <button type="submit">로그인</button>
  </form>
  <div class="footer">NAC Platform &mdash; 네트워크 접근 제어 시스템</div>
</div>
</body>
</html>"##;

/// The page shown after a successful login.
pub const SUCCESS_HTML: &'static str = r##"<!DOCTYPE html>
<html lang="ko">
<head>
<meta charset="UTF-8">
<title>인증 성공</title>
<style>
  * { box-sizing: border-box; margin: 0; padding: 0; }
  body {
    font-family: -apple-system, BlinkMacSystemFont, "Segoe UI", Roboto, sans-serif;
    background: #f0f2f5;
    display: flex; align-items: center; justify-content: center; min-height: 100vh;
  }
  .container {
    background: #fff; border-radius: 12px;
    box-shadow: 0 4px 24px rgba(0,0,0,.12);
    padding: 48px 40px; width: 100%; max-width: 400px; text-align: center;
  }
  .icon { font-size: 64px; margin-bottom: 24px; }
  h1 { font-size: 24px; color: #16a34a; margin-bottom: 12px; }
  p { color: #666; font-size: 15px; }
  .btn {
    display: inline-block; margin-top: 24px; padding: 12px 32px;
    background: #4f46e5; color: #fff; border-radius: 8px;
    text-decoration: none; font-weight: 600; font-size: 15px;
  }
</style>
<script>
  // 인증 성공 후 3초마다 연결 상태를 확인해 OS 팝업이 자동으로 닫히도록 한다
  let tries = 0;
  const check = setInterval(async () => {
    try {
      const r = await fetch('/generate_204');
      if (r.status === 204) { clearInterval(check); }
    } catch (_) {}
    if (++tries > 10) clearInterval(check);
  }, 3000);
</script>
</head>
<body>
<div class="container">
  <div class="icon">✅</div>
  <h1>인증 성공</h1>
  <p>네트워크 접속이 허가되었습니다.<br>브라우저를 닫고 다시 접속해보세요.</p>
  <a class="btn" href="http://www.msftncsi.com/ncsi.txt" onclick="window.open(this.href);return false;">연결 확인</a>
</div>
</body>
</html>"##;

/// The page shown after a failed login; `{{REASON}}` stands where the
/// reason goes.
pub const DENIED_HTML: &'static str = r##"<!DOCTYPE html>
<html lang="ko">
<head>
<meta charset="UTF-8">
<title>인증 실패</title>
<style>
  * { box-sizing: border-box; margin: 0; padding: 0; }
  body {
    font-family: -apple-system, BlinkMacSystemFont, "Segoe UI", Roboto, sans-serif;
    background: #f0f2f5;
    display: flex; align-items: center; justify-content: center; min-height: 100vh;
  }
  .container {
    background: #fff; border-radius: 12px;
    box-shadow: 0 4px 24px rgba(0,0,0,.12);
    padding: 48px 40px; width: 100%; max-width: 400px; text-align: center;
  }
  .icon { font-size: 64px; margin-bottom: 24px; }
  h1 { font-size: 24px; color: #dc2626; margin-bottom: 12px; }
  p { color: #666; font-size: 15px; margin-bottom: 24px; }
  a {
    display: inline-block; padding: 12px 28px;
    background: #4f46e5; color: #fff;
    border-radius: 8px; text-decoration: none; font-weight: 600;
  }
  a:hover { background: #4338ca; }
  .reason { font-size: 12px; color: #aaa; margin-top: 16px; }
</style>
</head>
<body>
<div class="container">
  <div class="icon">❌</div>
  <h1>인증 실패</h1>
  <p>사용자명 또는 비밀번호가 올바르지 않습니다.</p>
  <a href="/">다시 시도</a>
  <div class="reason">사유: {{REASON}}</div>
</div>
</body>
</html>"##;

/// The page shown to a blocked endpoint.
pub const BLOCKED_HTML: &'static str = r##"<!DOCTYPE html>
<html lang="ko">
<head>
<meta charset="UTF-8">
<meta name="viewport" content="width=device-width, initial-scale=1.0">
<title>네트워크 접근 차단됨</title>
<style>
  * { box-sizing: border-box; margin: 0; padding: 0; }
  body {
    font-family: -apple-system, BlinkMacSystemFont, "Segoe UI", Roboto, sans-serif;
    background: #fef2f2;
    display: flex; align-items: center; justify-content: center; min-height: 100vh;
  }
  .container {
    background: #fff; border-radius: 12px;
    box-shadow: 0 4px 24px rgba(0,0,0,.12);
    padding: 48px 40px; width: 100%; max-width: 480px; text-align: center;
  }
  .icon { font-size: 72px; margin-bottom: 24px; }
  h1 { font-size: 24px; font-weight: 700; color: #dc2626; margin-bottom: 12px; }
  .subtitle { font-size: 15px; color: #666; margin-bottom: 28px; line-height: 1.6; }
  .info-box {
    background: #fef2f2; border: 1px solid #fecaca;
    border-radius: 8px; padding: 16px 20px;
    text-align: left; margin-bottom: 24px;
  }
  .info-box p { font-size: 13px; color: #7f1d1d; margin-bottom: 6px; }
  .info-box p:last-child { margin-bottom: 0; }
  .info-box strong { color: #dc2626; }
  .contact {
    font-size: 13px; color: #888;
    padding-top: 20px; border-top: 1px solid #f3f4f6;
  }
  .contact a { color: #4f46e5; text-decoration: none; }
</style>
</head>
<body>
<div class="container">
  <div class="icon">🚫</div>
  <h1>네트워크 접근이 차단되었습니다</h1>
  <p class="subtitle">
    귀하의 단말은 보안 정책에 의해<br>네트워크 접근이 제한된 상태입니다.
  </p>
  <div class="info-box">
    <p>⚠️ <strong>차단 사유:</strong> 보안 정책 위반 또는 관리자 설정</p>
    <p>📋 <strong>현재 상태:</strong> 인터넷 및 내부망 접근 불가</p>
    <p>🔒 <strong>조치:</strong> 네트워크 관리자에게 문의하세요</p>
  </div>
  <div class="contact">
    문의: 네트워크 관리자<br>
    <a href="mailto:admin@example.com">admin@example.com</a>
  </div>
</div>
</body>
</html>"##;

} // verus!
