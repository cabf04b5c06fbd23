use gmacftp::i18n::runtime;

#[test]
fn english_and_unknown_details_are_preserved() {
    let message = "Could not copy /private/example: permission denied";
    assert_eq!(runtime(message, "en"), message);
    let polish = runtime(message, "pl");
    assert!(polish.starts_with("Nie udało się skopiować "));
    assert!(polish.contains("/private/example: permission denied"));
}

#[test]
fn exact_operational_copy_is_localized() {
    assert_eq!(runtime("Remote Trash is empty.", "pl"), "Zdalny Kosz jest pusty.");
    assert_eq!(runtime("opaque server reply", "pl"), "opaque server reply");
    assert_eq!(
        runtime(
            "Connection successful — listed 3 item(s), but the session is plaintext FTP.",
            "pl"
        ),
        "Połączenie udane — odczytano elementy (3), ale sesja korzysta z nieszyfrowanego FTP."
    );
    assert_eq!(
        runtime("Connected via plaintext FTP — password was sent unencrypted.", "pl"),
        "Połączono przez nieszyfrowany FTP — hasło wysłano bez szyfrowania."
    );
    assert_eq!(
        runtime("Recovered saved passwords: 12. You can connect normally now.", "pl"),
        "Odzyskane zapisane hasła: 12. Możesz teraz normalnie się łączyć."
    );
    assert_eq!(
        runtime("Password recovery was not performed. No credential data was changed.", "pl"),
        "Nie wykonano odzyskiwania haseł. Dane logowania nie zostały zmienione."
    );
}

#[test]
fn details_are_preserved() {
    assert_eq!(
        runtime("Could not copy /private/my files/a: denied", "pl"),
        "Nie udało się skopiować /private/my files/a: denied"
    );
    assert_eq!(
        runtime("Could not copy my 3 files.txt: denied", "pl"),
        "Nie udało się skopiować my 3 files.txt: denied"
    );
    assert_eq!(
        runtime("Copied 3 files to /private/12 files/Selected 4 item(s)", "pl"),
        "Skopiowano 3 plików to /private/12 files/Selected 4 item(s)"
    );
    assert_eq!(runtime("Copying 3 filesystems", "pl"), "Kopiowanie 3 filesystems");
    assert_eq!(runtime("see Copying and my files", "pl"), "see Copying and my files");
    assert_eq!(
        runtime("Verified update 2.0 files opened — drag gmacFTP to Applications, then relaunch.", "pl"),
        "Zweryfikowaną aktualizację 2.0 files otwarto — przeciągnij gmacFTP do Aplikacji, a następnie uruchom ponownie."
    );
}

#[test]
fn words_after_numbers_are_localized() {
    assert_eq!(runtime("synchronizing 3 files…", "pl"), "synchronizing 3 plików…");
    assert_eq!(
        runtime("queued 3 synchronized file(s)…", "pl"),
        "queued 3 synchronized plików…"
    );
    assert_eq!(
        runtime("queued 3 synchronized file(s); deletions wait for every copy…", "pl"),
        "queued 3 synchronized plików; deletions wait for every copy…"
    );
    assert_eq!(
        runtime("checksum comparison is limited to 10000 matching files per run", "pl"),
        "checksum comparison is limited to 10000 matching plików per run"
    );
    assert_eq!(
        runtime("downloaded 0 file(s); skipped 2 unsafe path(s)", "pl"),
        "downloaded 0 plików; skipped 2 unsafe ścieżek"
    );
    assert_eq!(
        runtime("stopping remaining files in this batch…", "pl"),
        "zatrzymywanie pozostałych plików w tej partii…"
    );
    assert_eq!(runtime("Passphrase exceeds 1024 bytes.", "pl"), "Hasło przekracza 1024 bajtów.");
    assert_eq!(
        runtime(
            "Recovered saved passwords: 12; ambiguous passwords requiring manual re-entry: 3. You can connect normally now.",
            "pl"
        ),
        "Odzyskane zapisane hasła: 12; niejednoznaczne hasła wymagające ponownego wpisania: 3. Możesz teraz normalnie się łączyć."
    );
    assert_eq!(
        runtime("Metadata cache: ~3 KB (4 entries)\nResume fragments: 5 KB (6 files)", "pl"),
        "Metadata cache: ~3 KB (4 pozycji)\nResume fragments: 5 KB (6 plików)"
    );
    assert_eq!(
        runtime("Connection successful — authentication and listing completed (7 item(s)).", "pl"),
        "Połączenie udane — zakończono logowanie i listowanie; elementy (7)."
    );
}
