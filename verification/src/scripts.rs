//! The scripts that the backend has the page run.

use vstd::prelude::*;

verus! {

/// Asks how far the document is loaded.
pub const READY_STATE: &'static str = r"document.readyState";

/// Asks for the title of the document.
pub const TITLE: &'static str = r"document.title";

/// Asks for the visible text of the document.
pub const BODY_TEXT: &'static str = r"document.body ? document.body.innerText : ''";

/// The click script up to the selector.
pub const CLICK_HEAD: &'static str = r"(function(){
                const sel = ";

/// The click script after the selector.
pub const CLICK_TAIL: &'static str = r";
                const el = document.querySelector(sel);
                if (!el) return 'ERROR: no element matches selector: ' + sel;
                el.click();
                const label = el.textContent.trim().slice(0, 60) || el.tagName;
                return 'Clicked: ' + label;
            })()";

/// The fill script up to the selector.
pub const FILL_HEAD: &'static str = r"(function(){
                const sel = ";

/// The fill script between the selector and the value.
pub const FILL_MIDDLE: &'static str = r";
                const val = ";

/// The fill script after the value.
pub const FILL_TAIL: &'static str = r";
                const el = document.querySelector(sel);
                if (!el) return 'ERROR: no element matches selector: ' + sel;
                el.focus();
                el.value = val;
                el.dispatchEvent(new Event('input', {bubbles: true}));
                el.dispatchEvent(new Event('change', {bubbles: true}));
                return 'Filled ' + (el.name || el.id || el.tagName);
            })()";

/// Lists the forms of the page and their fields.
pub const INSPECT_FORM: &'static str = r"(function(){
            const forms = Array.from(document.querySelectorAll('form'));
            if (forms.length === 0) return '[]';
            
            const result = forms.map((form, idx) => ({
                index: idx,
                action: form.action || '',
                method: form.method || 'GET',
                fields: Array.from(form.querySelectorAll('input, textarea, select')).map(field => ({
                    name: field.name || '',
                    type: field.type || 'text',
                    label: (field.labels && field.labels[0] ? field.labels[0].textContent.trim() : '') || field.placeholder || '',
                    required: field.required
                }))
            }));
            return JSON.stringify(result);
        })()";

/// Lists the fields of each form, with what they can be found by.
pub const DISCOVER_FORMS: &'static str = r"(function(){
            const forms = Array.from(document.querySelectorAll('form'));
            if (forms.length === 0) return '[]';
            return JSON.stringify(forms.map(form => ({
                fields: Array.from(form.querySelectorAll('input, textarea, select')).map(field => ({
                    name: field.name || '',
                    type: field.type || 'text',
                    label: (field.labels && field.labels[0] ? field.labels[0].textContent.trim() : '') || field.placeholder || '',
                    id: field.id || ''
                }))
            })));
        })()";

/// Presses the submit button.
pub const SUBMIT_FORM: &'static str = r#"(function(){
                const btn = document.querySelector('button[type="submit"], input[type="submit"]');
                if (btn) { btn.click(); return 'submitted'; }
                return 'no button';
            })()"#;

/// The extraction script up to the list of keys.
pub const SEMANTIC_DATA_HEAD: &'static str = r"(function(){
            const keys = ";

/// The extraction script after the list of keys.
pub const SEMANTIC_DATA_TAIL: &'static str = r#";
            const result = {};
            
            keys.forEach(key => {
                const selectors = [
                    `[class*="${key}" i]`,
                    `[id*="${key}" i]`,
                    `[itemprop="${key}"]`,
                    `[aria-label*="${key}" i]`,
                    `[data-testid*="${key}" i]`,
                    `[name*="${key}" i]`
                ];
                
                for (const sel of selectors) {
                    const el = document.querySelector(sel);
                    if (el && el.textContent.trim()) {
                        result[key] = el.textContent.trim().slice(0, 200);
                        break;
                    }
                }
            });
            
            return JSON.stringify(result);
        })()"#;

/// Counts the requests that have no response yet.
pub const PENDING_REQUESTS: &'static str = r"(function(){
                return performance.getEntriesByType('resource')
                    .filter(r => r.responseEnd === 0).length;
            })()";

/// Numbers and lists the elements that can be operated.
pub const INTERACTIVE_ELEMENTS: &'static str = r#"(function(){
            const elements = [];
            let id = 1;
            
            const selectors = 'a, button, input, select, textarea, [onclick], [role="button"]';
            document.querySelectorAll(selectors).forEach(el => {
                const rect = el.getBoundingClientRect();
                const style = window.getComputedStyle(el);
                
                if (style.display !== 'none' && 
                    style.visibility !== 'hidden' &&
                    rect.width > 0 && rect.height > 0) {
                    
                    el.setAttribute('data-rove-id', id);
                    
                    elements.push({
                        id: id++,
                        tag: el.tagName.toLowerCase(),
                        type: el.type || '',
                        text: (el.textContent || el.value || el.placeholder || '').trim().slice(0, 50),
                        name: el.name || '',
                        ariaLabel: el.getAttribute('aria-label') || ''
                    });
                }
            });
            
            return JSON.stringify(elements);
        })()"#;

/// The numbered-click script up to the first number.
pub const CLICK_BY_ID_HEAD: &'static str = r#"(function(){
            const el = document.querySelector('[data-rove-id=""#;

/// The numbered-click script between the two numbers.
pub const CLICK_BY_ID_MIDDLE: &'static str = r#""]');
            if (!el) return 'ERROR: no element with id "#;

/// The numbered-click script after the second number.
pub const CLICK_BY_ID_TAIL: &'static str = r"';
            el.click();
            return 'Clicked: ' + (el.textContent || el.value || el.tagName).trim().slice(0, 60);
        })()";

/// Looks for what keeps a visitor out of the page.
pub const CHECK_BLOCKERS: &'static str = r#"(function(){
            const blockers = {
                cloudflare: !!document.querySelector('#challenge-form, .cf-browser-verification, [id*="cf-challenge" i]'),
                recaptcha: !!document.querySelector('.g-recaptcha, #recaptcha, iframe[src*="recaptcha"]'),
                cookieBanner: !!document.querySelector('[class*="cookie" i][class*="banner" i], [id*="cookie" i][id*="consent" i]'),
                error404: document.title.toLowerCase().includes('404') || 
                         document.title.toLowerCase().includes('not found') ||
                         document.body.textContent.includes('Page Not Found'),
                accessDenied: document.body.textContent.includes('Access Denied') ||
                              document.body.textContent.includes('403 Forbidden')
            };
            
            const blocked = Object.entries(blockers).filter(([k, v]) => v).map(([k]) => k);
            
            return JSON.stringify({
                blocked: blocked.length > 0,
                blockers: blocked,
                canProceed: blocked.length === 0
            });
        })()"#;

/// The comparison script up to the selector.
pub const ELEMENT_DIFF_HEAD: &'static str = r"(function(){
            const sel = ";

/// The comparison script after the selector.
pub const ELEMENT_DIFF_TAIL: &'static str = r";
            const elements = Array.from(document.querySelectorAll(sel));
            const snapshot = elements.map(el => ({
                tag: el.tagName.toLowerCase(),
                text: el.textContent.trim().substring(0, 100),
                attrs: Array.from(el.attributes).reduce((acc, attr) => {
                    acc[attr.name] = attr.value;
                    return acc;
                }, {})
            }));
            
            if (!window.__cdp_snapshots) window.__cdp_snapshots = {};
            const prev = window.__cdp_snapshots[sel] || [];
            window.__cdp_snapshots[sel] = snapshot;
            
            const changed = snapshot.filter((curr, i) => {
                const old = prev[i];
                return !old || JSON.stringify(curr) !== JSON.stringify(old);
            });
            
            return JSON.stringify({
                total: snapshot.length,
                changed: changed.length,
                elements: changed
            });
        })()";

/// The table script up to the selector.
pub const TABLE_HEAD: &'static str = r"(function(){
            const table = document.querySelector(";

/// The table script after the selector.
pub const TABLE_TAIL: &'static str = r#");
            if (!table) return JSON.stringify({"error": "Table not found"});
            
            const headers = Array.from(table.querySelectorAll('thead th, thead td'))
                .map(th => th.textContent.trim());
            
            const rows = Array.from(table.querySelectorAll('tbody tr')).map(tr => {
                const cells = Array.from(tr.querySelectorAll('td, th'));
                const row = {};
                cells.forEach((cell, i) => {
                    const key = headers[i] || `col_${i}`;
                    row[key] = cell.textContent.trim();
                });
                return row;
            });
            
            return JSON.stringify({
                headers: headers,
                rows: rows,
                count: rows.length
            });
        })()"#;

/// Reads the local storage of the page.
pub const READ_STORAGE: &'static str = r"(function(){
            const storage = {};
            for (let i = 0; i < localStorage.length; i++) {
                const key = localStorage.key(i);
                storage[key] = localStorage.getItem(key);
            }
            return JSON.stringify(storage);
        })()";

/// The storing script up to the key.
pub const STORE_ITEM_HEAD: &'static str = r"localStorage.setItem(";

/// The storing script between the key and the value.
pub const STORE_ITEM_MIDDLE: &'static str = r", ";

/// The storing script after the value.
pub const STORE_ITEM_TAIL: &'static str = r")";

/// The interception script up to the pattern.
pub const INTERCEPT_HEAD: &'static str = r"(function(){
            const pattern = ";

/// The interception script after the pattern.
pub const INTERCEPT_TAIL: &'static str = r#";
            if (!window.__cdp_intercepted) window.__cdp_intercepted = [];
            
            const origFetch = window.fetch;
            window.fetch = function(...args) {
                return origFetch.apply(this, args).then(response => {
                    const url = (args[0] && args[0].url) || String(args[0]);
                    if (url.includes(pattern)) {
                        return response.clone().text().then(body => {
                            window.__cdp_intercepted.push({
                                url: url,
                                status: response.status,
                                body: body.substring(0, 5000)
                            });
                            return response;
                        });
                    }
                    return response;
                });
            };
            
            const origOpen = XMLHttpRequest.prototype.open;
            XMLHttpRequest.prototype.open = function(method, url, ...rest) {
                this.__cdp_url = String(url);
                return origOpen.call(this, method, url, ...rest);
            };
            
            const origSend = XMLHttpRequest.prototype.send;
            XMLHttpRequest.prototype.send = function(...args) {
                const url = this.__cdp_url || '';
                if (url.includes(pattern)) {
                    this.addEventListener('loadend', () => {
                        if (this.status === 0) return;
                        let body = '';
                        if (this.responseType === '' || this.responseType === 'text') {
                            body = this.responseText;
                        } else if (this.responseType === 'json') {
                            body = JSON.stringify(this.response);
                        }
                        window.__cdp_intercepted.push({
                            url: url,
                            status: this.status,
                            body: body.substring(0, 5000)
                        });
                    }, {once: true});
                }
                return origSend.apply(this, args);
            };
            
            return JSON.stringify({"intercepting": pattern});
        })()"#;

/// Hands over the intercepted responses.
pub const INTERCEPTED_RESPONSES: &'static str = r"(function(){
            const responses = window.__cdp_intercepted || [];
            window.__cdp_intercepted = [];
            return JSON.stringify({
                count: responses.length,
                responses: responses
            });
        })()";

/// Describes the structure of the page.
pub const PAGE_STRUCTURE: &'static str = r#"(function(){
            const result = {
                title: document.title || '',
                url: window.location.href,
                headings: Array.from(document.querySelectorAll('h1, h2, h3')).map(h => h.textContent.trim()).slice(0, 10),
                forms: document.querySelectorAll('form').length,
                inputs: document.querySelectorAll('input, textarea, select').length,
                buttons: Array.from(document.querySelectorAll('button, input[type="submit"]')).map(b => b.textContent.trim() || b.value).slice(0, 10),
                links: Array.from(document.querySelectorAll('a[href]')).slice(0, 20).map(a => ({
                    text: a.textContent.trim().slice(0, 50),
                    href: a.href
                }))
            };
            return JSON.stringify(result);
        })()"#;

} // verus!
