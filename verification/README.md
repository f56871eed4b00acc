# asez2_shared_db

Общая библиотека микросервисов: построение SQL-запросов к PostgreSQL (SELECT с
фильтрами, сортировкой и пагинацией, INSERT/UPDATE/UPSERT/DELETE, составные
JOIN-запросы), маски колонок, значения фильтров, даты и метки времени, а также
правила общих сервисов (справочники, история изменений полей, выбор даты
комиссии, проверка доступа к полям).

Библиотека написана на Verus: Verus проверяет весь код `src/` (в нём нет
паник и переполнений), а для функций с контрактом доказывает, что код
контракту следует.

- `src/` -- проверяемая библиотека:
  - `db_item/` -- описание таблицы, маски колонок, фильтры и `Select`,
    построители запросов, JOIN, номера версий;
  - `date_time.rs`, `value.rs`, `text.rs` -- даты, значения, текстовые записи;
  - `essential/` -- справочники и запросы `search_by_id`, история изменений и
    статусов, расписание задач, сжатие;
  - `collections.rs` -- контракты используемых коллекций крейта `ahash`.
- `tests/` -- тесты библиотеки на конкретных значениях.
- `app/` -- ввод-вывод вокруг библиотеки: пулы `sqlx` и выполнение запросов,
  чтение настроек и окружения, ежедневные задачи, HTTP-запросы к монолиту и
  разбор его ответов.
